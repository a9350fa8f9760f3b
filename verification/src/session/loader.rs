//! Which stored sessions are listed, in which order, and to which project each belongs.

use super::worktree::{quote, Failure};
use super::{Session, Timestamp, WorkspaceYaml};
use crate::paths::{is_absolute, join_path, joined, path_file_name, path_parent};
use crate::strings::{chars_of, matches_at, parse_unsigned_between, same_text, text_between, trimmed};
use vstd::prelude::*;

verus! {

/// The moment an RFC 3339 text names, as seconds and nanoseconds.
pub uninterp spec fn rfc3339_instant(text: Seq<char>) -> Option<(i64, u32)>;

/// `DateTime::parse_from_rfc3339` of the `chrono` crate: which moment a text names depends on the
/// text alone, and lies in the calendar. Which texts name one stays unsaid.
#[verifier::external_body]
fn parse_rfc3339(text: &str) -> (at: Option<Timestamp>)
    ensures
        match at {
            Some(t) => rfc3339_instant(text@) == Some((t.seconds, t.nanos)) && t.valid(),
            None => rfc3339_instant(text@) is None,
        },
{
    chrono::DateTime::parse_from_rfc3339(text).ok().map(
        |moment| Timestamp {
            seconds: moment.timestamp(),
            nanos: moment.timestamp_subsec_nanos(),
        },
    )
}

/// The moment that a field of a session's description names.
pub open spec fn field_time(field: Option<String>) -> Option<(i64, u32)> {
    match field {
        Some(text) => rfc3339_instant(text@),
        None => None,
    }
}

/// A moment as seconds and nanoseconds.
pub open spec fn time_parts(at: Option<Timestamp>) -> Option<(i64, u32)> {
    match at {
        Some(t) => Some((t.seconds, t.nanos)),
        None => None,
    }
}

fn parse_field(field: &Option<String>) -> (at: Option<Timestamp>)
    ensures
        time_parts(at) == field_time(*field),
        at matches Some(t) ==> t.valid(),
{
    match field {
        Some(text) => parse_rfc3339(text.as_str()),
        None => None,
    }
}

/// Makes a session of its parsed description, the moments in it, and what was seen of its directory.
/// A title that an older version wrote as the summary comes before the name.
pub fn session_from(
    workspace: WorkspaceYaml,
    created_at: Option<Timestamp>,
    updated_at: Option<Timestamp>,
    dir_path: String,
    project_root: Option<String>,
    is_active: bool,
) -> (session: Session)
    ensures
        session.id == workspace.id,
        session.cwd@ == (match workspace.cwd {
            Some(cwd) => cwd@,
            None => Seq::empty(),
        }),
        session.project_root@ == (match project_root {
            Some(root) => root@,
            None => session.cwd@,
        }),
        session.summary == (if workspace.summary is Some {
            workspace.summary
        } else {
            workspace.name
        }),
        session.created_at == created_at,
        session.updated_at == updated_at,
        session.is_active == is_active,
        session.dir_path == dir_path,
        session.edited_files@.len() == 0,
        session.last_user_message is None,
        session.turn_count == 0,
        session.tool_call_count == 0,
        session.details_parsed_len == 0,
{
    let cwd = match workspace.cwd {
        Some(cwd) => cwd,
        None => String::new(),
    };
    let root = match project_root {
        Some(root) => root,
        None => cwd.clone(),
    };
    let summary = match workspace.summary {
        Some(summary) => Some(summary),
        None => workspace.name,
    };
    Session {
        id: workspace.id,
        cwd,
        project_root: root,
        summary,
        created_at,
        updated_at,
        is_active,
        dir_path,
        edited_files: Vec::new(),
        last_user_message: None,
        turn_count: 0,
        tool_call_count: 0,
        details_parsed_len: 0,
    }
}

/// Makes a session of its parsed description and what was seen of its directory.
pub fn load_single_session(
    workspace: WorkspaceYaml,
    dir_path: String,
    project_root: Option<String>,
    is_active: bool,
) -> (session: Session)
    ensures
        session.id == workspace.id,
        session.cwd@ == (match workspace.cwd {
            Some(cwd) => cwd@,
            None => Seq::empty(),
        }),
        session.project_root@ == (match project_root {
            Some(root) => root@,
            None => session.cwd@,
        }),
        session.summary == (if workspace.summary is Some {
            workspace.summary
        } else {
            workspace.name
        }),
        time_parts(session.created_at) == field_time(workspace.created_at),
        time_parts(session.updated_at) == field_time(workspace.updated_at),
        session.created_at matches Some(at) ==> at.valid(),
        session.updated_at matches Some(at) ==> at.valid(),
        session.is_active == is_active,
        session.dir_path == dir_path,
        session.edited_files@.len() == 0,
        session.last_user_message is None,
        session.turn_count == 0,
        session.tool_call_count == 0,
        session.details_parsed_len == 0,
{
    let created_at = parse_field(&workspace.created_at);
    let updated_at = parse_field(&workspace.updated_at);
    session_from(workspace, created_at, updated_at, dir_path, project_root, is_active)
}

/// A session directory as it was read: the session, where its description could be read, and the
/// length of its event log, where it has one.
pub struct ReadSession {
    pub session: Option<Session>,
    pub events_len: Option<u64>,
}

/// Whether a session is worth listing: it has a title, or more than the event that started it.
pub open spec fn listed(read: ReadSession) -> bool {
    read.session matches Some(session) && (session.summary is Some || (read.events_len matches Some(
        len,
    ) && len > 100))
}

/// The listed sessions, in the order they were read.
pub open spec fn listed_sessions(read: Seq<ReadSession>) -> Seq<Session>
    decreases read.len(),
{
    if read.len() == 0 {
        Seq::empty()
    } else if listed(read.last()) {
        listed_sessions(read.drop_last()).push(read.last().session->0)
    } else {
        listed_sessions(read.drop_last())
    }
}

/// Whether a session was touched before another. One that never was comes before all others.
pub open spec fn older(a: Session, b: Session) -> bool {
    match (a.touched(), b.touched()) {
        (Some(x), Some(y)) => x.precedes(y),
        (None, Some(_)) => true,
        (_, None) => false,
    }
}

/// Where a session goes in a list with the newest first: in front of the first one older than it.
pub open spec fn place_from(sessions: Seq<Session>, session: Session, from: int) -> int
    decreases sessions.len() - from,
{
    if 0 <= from < sessions.len() && !older(sessions[from], session) {
        place_from(sessions, session, from + 1)
    } else {
        from
    }
}

/// Sessions with the newest first; those touched at one moment keep their order.
pub open spec fn newest_first(sessions: Seq<Session>) -> Seq<Session>
    decreases sessions.len(),
{
    if sessions.len() == 0 {
        Seq::empty()
    } else {
        let sorted = newest_first(sessions.drop_last());
        sorted.insert(place_from(sorted, sessions.last(), 0), sessions.last())
    }
}

fn is_older(a: &Session, b: &Session) -> (r: bool)
    ensures
        r == older(*a, *b),
{
    match (a.last_touched(), b.last_touched()) {
        (Some(x), Some(y)) => x.is_before(&y),
        (None, Some(_)) => true,
        (_, None) => false,
    }
}

proof fn lemma_place_from(sessions: Seq<Session>, session: Session, from: int)
    requires
        0 <= from <= sessions.len(),
    ensures
        from <= place_from(sessions, session, from) <= sessions.len(),
        forall|i: int|
            from <= i < place_from(sessions, session, from) ==> !older(
                #[trigger] sessions[i],
                session,
            ),
        place_from(sessions, session, from) < sessions.len() ==> older(
            sessions[place_from(sessions, session, from)],
            session,
        ),
    decreases sessions.len() - from,
{
    if from < sessions.len() && !older(sessions[from], session) {
        lemma_place_from(sessions, session, from + 1);
    }
}

fn insert_by_time(sessions: &mut Vec<Session>, session: Session)
    ensures
        final(sessions)@ == old(sessions)@.insert(
            place_from(old(sessions)@, session, 0),
            session,
        ),
{
    let mut at: usize = 0;
    while at < sessions.len() && !is_older(&sessions[at], &session)
        invariant
            at <= sessions@.len(),
            sessions@ == old(sessions)@,
            place_from(sessions@, session, 0) == place_from(sessions@, session, at as int),
        decreases sessions@.len() - at,
    {
        at = at + 1;
    }
    sessions.insert(at, session);
}

/// The directory that holds what Copilot stores: the configured one, or else the one in the home
/// directory.
pub fn copilot_home(configured: &Option<String>, home: &Option<String>, windows: bool) -> (path:
    String)
    ensures
        path@ == (match *configured {
            Some(c) => c@,
            None => joined(
                match *home {
                    Some(h) => h@,
                    None => "."@,
                },
                ".copilot"@,
                windows,
            ),
        }),
{
    if let Some(c) = configured {
        return c.clone();
    }
    match home {
        Some(h) => join_path(h.as_str(), ".copilot", windows),
        None => join_path(".", ".copilot", windows),
    }
}

/// What was found at the directory of all sessions.
pub enum SessionDirectory {
    Missing,
    Unreadable(Failure),
    /// What was read, up to an entry that could not be.
    Read { sessions: Vec<ReadSession>, failure: Option<Failure> },
}

/// The sessions to list, with the newest first. A single session that cannot be read is left out; a
/// directory that cannot be read is not.
pub fn load_sessions(directory: &str, found: SessionDirectory) -> (r: Result<Vec<Session>, Failure>)
    ensures
        match found {
            SessionDirectory::Missing => r matches Err(failure) && failure@ == seq![
                "Session directory not found: "@ + directory@,
            ],
            SessionDirectory::Unreadable(error) => r matches Err(failure) && failure@ == seq![
                "Failed to read "@ + directory@,
            ] + error@,
            SessionDirectory::Read { sessions, failure } => match failure {
                Some(error) => r matches Err(e) && e@ == error@,
                None => r matches Ok(list) && list@ == newest_first(listed_sessions(sessions@)),
            },
        },
{
    proof {
        reveal_strlit("");
        assert("Session directory not found: "@ + directory@ + ""@
            =~= "Session directory not found: "@ + directory@);
        assert("Failed to read "@ + directory@ + ""@ =~= "Failed to read "@ + directory@);
    }
    match found {
        SessionDirectory::Missing => Err(
            Failure::of(quote("Session directory not found: ", directory, "")),
        ),
        SessionDirectory::Unreadable(error) => Err(
            error.context(quote("Failed to read ", directory, "")),
        ),
        SessionDirectory::Read { sessions, failure } => match failure {
            Some(error) => Err(error),
            None => Ok(list_sessions(sessions)),
        },
    }
}

fn list_sessions(read: Vec<ReadSession>) -> (sessions: Vec<Session>)
    ensures
        sessions@ == newest_first(listed_sessions(read@)),
{
    let mut rest = read;
    let mut sessions: Vec<Session> = Vec::new();
    let ghost mut done: int = 0;
    assert(read@.take(0) == Seq::<ReadSession>::empty());
    assert(read@.skip(0) == read@);
    while rest.len() > 0
        invariant
            0 <= done <= read@.len(),
            rest@ == read@.skip(done),
            sessions@ == newest_first(listed_sessions(read@.take(done))),
        decreases rest@.len(),
    {
        let next = rest.remove(0);
        proof {
            assert(next == read@[done]);
            assert(rest@ == read@.skip(done + 1));
            assert(read@.take(done + 1).drop_last() == read@.take(done));
            assert(read@.take(done + 1).last() == next);
            done = done + 1;
        }
        let has_events = match next.events_len {
            Some(len) => len > 100,
            None => false,
        };
        if let Some(session) = next.session {
            if session.summary.is_some() || has_events {
                let ghost before = listed_sessions(read@.take(done - 1));
                assert(before.push(session).drop_last() == before);
                insert_by_time(&mut sessions, session);
            }
        }
    }
    assert(read@.take(done) == read@);
    sessions
}

/// Nothing is lost or made up by sorting, and of any two sessions in the list the one further up is
/// not older.
pub proof fn law_listed_newest_first(sessions: Seq<Session>)
    ensures
        newest_first(sessions).to_multiset() == sessions.to_multiset(),
        newest_first(sessions).len() == sessions.len(),
        forall|i: int, j: int|
            0 <= i < j < sessions.len() ==> !older(
                #[trigger] newest_first(sessions)[i],
                #[trigger] newest_first(sessions)[j],
            ),
    decreases sessions.len(),
{
    broadcast use vstd::seq_lib::group_to_multiset_ensures;

    if sessions.len() > 0 {
        let shorter = sessions.drop_last();
        let last = sessions.last();
        let sorted = newest_first(shorter);
        law_listed_newest_first(shorter);
        lemma_place_from(sorted, last, 0);
        let at = place_from(sorted, last, 0);
        assert(sessions =~= shorter.push(last));
        assert(sorted.insert(at, last).to_multiset() =~= sorted.to_multiset().insert(last)) by {
            vstd::seq_lib::to_multiset_insert(sorted, at, last);
        }
        let whole = sorted.insert(at, last);
        assert forall|i: int, j: int| 0 <= i < j < sessions.len() implies !older(
            #[trigger] whole[i],
            #[trigger] whole[j],
        ) by {
            if j < at {
                assert(whole[i] == sorted[i] && whole[j] == sorted[j]);
            } else if i >= at + 1 {
                assert(whole[i] == sorted[i - 1] && whole[j] == sorted[j - 1]);
            } else if i < at && j == at {
                assert(whole[i] == sorted[i]);
            } else if i < at {
                assert(whole[i] == sorted[i] && whole[j] == sorted[j - 1]);
            } else {
                assert(whole[j] == sorted[j - 1]);
                if j - 1 > at {
                    assert(!older(sorted[at], sorted[j - 1]));
                }
            }
        }
    }
}

/// What a session's event log was found to hold, and how much of it has been read.
pub struct SessionDetails {
    pub edited_files: Vec<String>,
    pub last_user_message: Option<String>,
    pub turn_count: usize,
    pub tool_call_count: usize,
    pub parsed_len: u64,
}

/// Takes the details out of a session, to be carried on from where they end. A session without an
/// event log keeps its own.
pub fn take_details(session: &mut Session) -> (details: SessionDetails)
    ensures
        details.edited_files == old(session).edited_files,
        details.last_user_message == old(session).last_user_message,
        details.turn_count == old(session).turn_count,
        details.tool_call_count == old(session).tool_call_count,
        details.parsed_len == old(session).details_parsed_len,
        final(session).edited_files@.len() == 0,
        *final(session) == (Session {
            edited_files: final(session).edited_files,
            last_user_message: None,
            ..*old(session)
        }),
{
    let mut edited_files: Vec<String> = Vec::new();
    let mut last_user_message: Option<String> = None;
    std::mem::swap(&mut edited_files, &mut session.edited_files);
    std::mem::swap(&mut last_user_message, &mut session.last_user_message);
    SessionDetails {
        edited_files,
        last_user_message,
        turn_count: session.turn_count,
        tool_call_count: session.tool_call_count,
        parsed_len: session.details_parsed_len,
    }
}

/// Puts details into a session, as far as they were read.
pub fn load_session_details(session: &mut Session, details: SessionDetails)
    ensures
        *final(session) == (Session {
            edited_files: details.edited_files,
            last_user_message: details.last_user_message,
            turn_count: details.turn_count,
            tool_call_count: details.tool_call_count,
            details_parsed_len: details.parsed_len,
            ..*old(session)
        }),
{
    session.edited_files = details.edited_files;
    session.last_user_message = details.last_user_message;
    session.turn_count = details.turn_count;
    session.tool_call_count = details.tool_call_count;
    session.details_parsed_len = details.parsed_len;
}

/// The bytes of a session's event log that have not been read yet. `events_len` is the length of the
/// log, where there is one.
pub fn pending_detail_bytes(session: &Session, events_len: Option<u64>) -> (bytes: u64)
    ensures
        bytes == (match events_len {
            Some(len) if len > session.details_parsed_len => (len - session.details_parsed_len) as u64,
            _ => 0,
        }),
{
    match events_len {
        Some(len) => len.saturating_sub(session.details_parsed_len),
        None => 0,
    }
}

/// The process that a lock file of a session names: `inuse.`, a process id, `.lock`.
pub open spec fn lock_pid(name: Seq<char>) -> Option<u32> {
    let prefix = "inuse."@;
    let suffix = ".lock"@;
    if crate::strings::has_prefix(name, prefix) && crate::strings::has_suffix(
        name.skip(prefix.len() as int),
        suffix,
    ) {
        let inner = name.skip(prefix.len() as int);
        match crate::strings::parse_unsigned(
            inner.take(inner.len() - suffix.len()),
            u32::MAX as nat,
        ) {
            Some(n) => Some(n as u32),
            None => None,
        }
    } else {
        None
    }
}

/// The process that a lock file of a session names.
pub fn pid_of_lock(name: &str) -> (pid: Option<u32>)
    ensures
        pid == lock_pid(name@),
{
    let chars = chars_of(name);
    let count: usize = chars.len();
    let prefix = chars_of("inuse.");
    let suffix = chars_of(".lock");
    proof {
        reveal_strlit("inuse.");
        reveal_strlit(".lock");
    }
    let ghost inner = chars@.skip(6);
    if !matches_at(&chars, 0, &prefix) {
        assert(chars@.skip(0) == chars@);
        return None;
    }
    assert(chars@.skip(0) == chars@);
    if count < 11 {
        assert(inner.len() < 5);
        return None;
    }
    let end: usize = count - 5;
    let locked = matches_at(&chars, end, &suffix);
    assert(inner.skip(inner.len() - 5) == chars@.skip(end as int));
    assert(chars@.skip(end as int).take(5) == chars@.skip(end as int));
    if !locked {
        return None;
    }
    assert(inner.take(inner.len() - 5) == chars@.subrange(6, end as int));
    match parse_unsigned_between(&chars, 6, end, u32::MAX as u64) {
        Some(n) => Some(n as u32),
        None => None,
    }
}

/// Whether one of the lock files in a session's directory belongs to a live process.
pub open spec fn holds_live_lock(names: Seq<Seq<char>>, live: Seq<u32>) -> bool {
    exists|i: int|
        0 <= i < names.len() && (lock_pid(#[trigger] names[i]) matches Some(pid) && live.contains(pid))
}

/// Whether a session is in use: one of the lock files in its directory names a process that lives.
/// `names` are the files of the directory, and `live` the processes among those that they name.
pub fn session_is_active(names: &Vec<String>, live: &Vec<u32>) -> (active: bool)
    ensures
        active == holds_live_lock(crate::strings::text_views(names@), live@),
{
    let ghost views = crate::strings::text_views(names@);
    let mut i: usize = 0;
    while i < names.len()
        invariant
            i <= names@.len(),
            views == crate::strings::text_views(names@),
            forall|j: int|
                0 <= j < i ==> !(lock_pid(#[trigger] views[j]) matches Some(pid) && live@.contains(
                    pid,
                )),
        decreases names@.len() - i,
    {
        if let Some(pid) = pid_of_lock(names[i].as_str()) {
            if contains_pid(live, pid) {
                assert(views[i as int] == names@[i as int]@);
                return true;
            }
        }
        assert(views[i as int] == names@[i as int]@);
        i = i + 1;
    }
    false
}

/// Whether a process is among others.
pub fn contains_pid(pids: &Vec<u32>, pid: u32) -> (r: bool)
    ensures
        r == pids@.contains(pid),
{
    let mut i: usize = 0;
    while i < pids.len()
        invariant
            i <= pids@.len(),
            forall|j: int| 0 <= j < i ==> pids@[j] != pid,
        decreases pids@.len() - i,
    {
        if pids[i] == pid {
            return true;
        }
        i = i + 1;
    }
    false
}

/// What a directory holds under the name `.git`.
pub enum GitEntry {
    /// A directory: the root of a repository.
    Directory,
    /// A file, with its text where that could be read: a worktree of a repository elsewhere.
    File(Option<String>),
    Missing,
}

/// How the search for a project's root goes on.
pub enum ProjectStep {
    /// The root is this directory.
    Found(String),
    /// Look into this directory next.
    LookInto(String),
    /// There is no root.
    NotFound,
}

/// The directory that a worktree's `.git` file points to: what follows `gitdir:`.
pub open spec fn git_pointer(content: Seq<char>) -> Option<Seq<char>> {
    let text = crate::strings::trim(content);
    let prefix = "gitdir:"@;
    if crate::strings::has_prefix(text, prefix) {
        Some(crate::strings::trim(text.skip(prefix.len() as int)))
    } else {
        None
    }
}

/// The root of the repository that a worktree belongs to. Its pointer leads to a directory two
/// levels below the repository's own `.git`.
pub open spec fn worktree_owner(
    directory: Seq<char>,
    content: Seq<char>,
    windows: bool,
) -> Option<Seq<char>> {
    match git_pointer(content) {
        None => None,
        Some(pointer) => {
            let target = if crate::paths::absolute(pointer, windows) {
                pointer
            } else {
                crate::paths::joined(directory, pointer, windows)
            };
            match crate::paths::parent(target, windows) {
                None => None,
                Some(worktrees) => match crate::paths::parent(worktrees, windows) {
                    None => None,
                    Some(dot_git) => if crate::paths::file_name(dot_git, windows) == Some(".git"@) {
                        crate::paths::parent(dot_git, windows)
                    } else {
                        None
                    },
                },
            }
        },
    }
}

/// How the search goes on at a directory.
pub open spec fn search_step(
    directory: Seq<char>,
    entry: GitEntry,
    windows: bool,
    step: ProjectStep,
) -> bool {
    match entry {
        GitEntry::Directory => step matches ProjectStep::Found(root) && root@ == directory,
        GitEntry::File(content) => {
            &&& step matches ProjectStep::Found(root)
            &&& root@ == (match content {
                Some(text) => match worktree_owner(directory, text@, windows) {
                    Some(owner) => owner,
                    None => directory,
                },
                None => directory,
            })
        },
        GitEntry::Missing => match crate::paths::parent(directory, windows) {
            Some(up) => step matches ProjectStep::LookInto(next) && next@ == up,
            None => step is NotFound,
        },
    }
}

fn owner_of_worktree(directory: &str, content: &str, windows: bool) -> (owner: Option<String>)
    ensures
        match owner {
            Some(root) => worktree_owner(directory@, content@, windows) == Some(root@),
            None => worktree_owner(directory@, content@, windows) is None,
        },
{
    let text = trimmed(content);
    let chars = chars_of(text.as_str());
    let prefix = chars_of("gitdir:");
    assert(chars@.skip(0) == chars@);
    if !matches_at(&chars, 0, &prefix) {
        return None;
    }
    let rest = text_between(&chars, prefix.len(), chars.len());
    assert(rest@ == text@.skip(prefix@.len() as int));
    let pointer = trimmed(rest.as_str());
    let target = if is_absolute(pointer.as_str(), windows) {
        pointer
    } else {
        join_path(directory, pointer.as_str(), windows)
    };
    let worktrees = match path_parent(target.as_str(), windows) {
        Some(up) => up,
        None => return None,
    };
    let dot_git = match path_parent(worktrees.as_str(), windows) {
        Some(up) => up,
        None => return None,
    };
    match path_file_name(dot_git.as_str(), windows) {
        Some(name) => {
            if same_text(name.as_str(), ".git") {
                path_parent(dot_git.as_str(), windows)
            } else {
                None
            }
        },
        None => None,
    }
}

/// How the search for a project's root begins: at the working directory, where that is known.
pub fn find_project_root(cwd: &str) -> (step: ProjectStep)
    ensures
        if cwd@.len() == 0 {
            step is NotFound
        } else {
            step matches ProjectStep::LookInto(directory) && directory@ == cwd@
        },
{
    if cwd.is_empty() {
        ProjectStep::NotFound
    } else {
        ProjectStep::LookInto(cwd.to_owned())
    }
}

/// How the search for a project's root goes on at a directory that holds `entry` under `.git`.
pub fn detect_project_root(directory: &str, entry: GitEntry, windows: bool) -> (step: ProjectStep)
    ensures
        search_step(directory@, entry, windows, step),
{
    match entry {
        GitEntry::Directory => ProjectStep::Found(directory.to_owned()),
        GitEntry::File(content) => {
            if let Some(text) = content {
                if let Some(owner) = owner_of_worktree(directory, text.as_str(), windows) {
                    return ProjectStep::Found(owner);
                }
            }
            ProjectStep::Found(directory.to_owned())
        },
        GitEntry::Missing => match path_parent(directory, windows) {
            Some(up) => ProjectStep::LookInto(up),
            None => ProjectStep::NotFound,
        },
    }
}

/// The search only ever goes up: each directory it looks into is shorter than the one before, so it
/// comes to an end.
pub proof fn law_project_search_ends(directory: Seq<char>, windows: bool)
    ensures
        crate::paths::parent(directory, windows) matches Some(up) ==> up.len() < directory.len(),
{
    let end = crate::paths::trimmed_len(directory, directory.len() as int, windows);
    crate::paths::lemma_trimmed_len(directory, directory.len() as int, windows);
    if end > crate::paths::body_start(directory, windows) {
        crate::paths::lemma_component_shrinks(directory, end, windows);
        let start = crate::paths::component_start(directory, end, windows);
        crate::paths::lemma_trimmed_len(directory, start, windows);
    }
}

/// A canonical path without the prefix that marks the long form of a path on Windows.
pub open spec fn without_long_prefix(path: Seq<char>) -> Seq<char> {
    if crate::strings::has_prefix(path, "\\\\?\\"@) {
        path.skip(4)
    } else {
        path
    }
}

/// The root of a project as it is shown: in its canonical form where there is one.
pub fn canonicalize_or_lossy(path: &str, canonical: Option<&str>) -> (text: String)
    ensures
        text@ == (match canonical {
            Some(c) => without_long_prefix(c@),
            None => path@,
        }),
{
    match canonical {
        Some(c) => {
            let chars = chars_of(c);
            let prefix = chars_of("\\\\?\\");
            proof {
                reveal_strlit("\\\\?\\");
            }
            assert(chars@.skip(0) == chars@);
            if matches_at(&chars, 0, &prefix) {
                let text = text_between(&chars, 4, chars.len());
                assert(text@ == c@.skip(4));
                text
            } else {
                c.to_owned()
            }
        },
        None => path.to_owned(),
    }
}

/// The lock of a process is read back from its name, whatever its number.
pub proof fn law_locks_name_their_process(pid: u32)
    ensures
        lock_pid("inuse."@ + crate::strings::decimal(pid as nat) + ".lock"@) == Some(pid),
{
    reveal_strlit("inuse.");
    reveal_strlit(".lock");
    let digits = crate::strings::decimal(pid as nat);
    let name = "inuse."@ + digits + ".lock"@;
    assert(name.take(6) =~= "inuse."@);
    let inner = name.skip(6);
    assert(inner =~= digits + ".lock"@);
    assert(inner.skip(inner.len() - 5) =~= ".lock"@);
    assert(inner.take(inner.len() - 5) =~= digits);
    crate::strings::law_parse_reads_decimal(pid as nat, u32::MAX as nat);
}

/// What is listed: a session with a summary always, and one without only where more than a few events
/// were written.
pub proof fn law_empty_sessions_are_not_listed(read: ReadSession)
    ensures
        read.session is None ==> !listed(read),
        read.session matches Some(session) ==> {
            &&& session.summary is Some ==> listed(read)
            &&& session.summary is None ==> (listed(read) <==> read.events_len is Some
                && read.events_len->0 > 100)
        },
{
}

/// The listed sessions are those that were read, in their order, without those that are not listed.
pub proof fn law_listed_sessions_were_read(read: Seq<ReadSession>)
    ensures
        listed_sessions(read) == read.filter(|r: ReadSession| listed(r)).map_values(
            |r: ReadSession| r.session->0,
        ),
    decreases read.len(),
{
    reveal(Seq::filter);
    let shown = |r: ReadSession| listed(r);
    let taken = |r: ReadSession| r.session->0;
    if read.len() > 0 {
        law_listed_sessions_were_read(read.drop_last());
        let before = read.drop_last().filter(shown);
        assert(before.push(read.last()).map_values(taken) =~= before.map_values(taken).push(
            read.last().session->0,
        ));
    } else {
        assert(read.filter(shown).map_values(taken) =~= Seq::<Session>::empty());
    }
}

/// In the list a session that was touched later comes first; and what was last touched is the time of
/// the change, or that of the creation where there was none.
pub proof fn law_later_sessions_come_first(sessions: Seq<Session>, i: int, j: int)
    requires
        0 <= i < j < sessions.len(),
    ensures
        ({
            let first = newest_first(sessions)[i];
            let second = newest_first(sessions)[j];
            let a = if first.updated_at is Some {
                first.updated_at
            } else {
                first.created_at
            };
            let b = if second.updated_at is Some {
                second.updated_at
            } else {
                second.created_at
            };
            &&& a is None ==> b is None
            &&& a matches Some(x) ==> b matches Some(y) ==> x.seconds > y.seconds || (x.seconds
                == y.seconds && x.nanos >= y.nanos)
        }),
{
    law_listed_newest_first(sessions);
    assert(!older(newest_first(sessions)[i], newest_first(sessions)[j]));
}

/// The pointer of a worktree is what stands behind its mark, without the space around it.
pub proof fn law_pointers_are_read_back(pointer: Seq<char>)
    requires
        pointer.len() > 0,
        !crate::strings::white(pointer[0]),
        !crate::strings::white(pointer.last()),
    ensures
        git_pointer("gitdir: "@ + pointer + "\n"@) == Some(pointer),
        git_pointer("gitdir:"@ + pointer) == Some(pointer),
{
    reveal_strlit("gitdir: ");
    reveal_strlit("gitdir:");
    reveal_strlit("\n");
    let none = Seq::<char>::empty();
    let spaced = "gitdir: "@ + pointer;
    let tight = "gitdir:"@ + pointer;
    crate::strings::law_trimming_takes_off_the_ends(none, spaced, "\n"@);
    crate::strings::law_trimming_takes_off_the_ends(none, tight, none);
    assert(none + spaced + "\n"@ =~= spaced + "\n"@);
    assert(none + tight + none =~= tight);
    assert(spaced.take(7) =~= "gitdir:"@);
    assert(tight.take(7) =~= "gitdir:"@);
    assert(tight.skip(7) =~= pointer);
    assert(spaced.skip(7) =~= seq![' '] + pointer + none);
    crate::strings::law_trimming_takes_off_the_ends(seq![' '], pointer, none);
    crate::strings::law_trimming_takes_off_the_ends(none, pointer, none);
    assert(none + pointer + none =~= pointer);
}

/// The project that a worktree belongs to is the repository whose Git directory its pointer leads into.
pub proof fn law_worktrees_lead_to_their_repository(
    directory: Seq<char>,
    repository: Seq<char>,
    name: Seq<char>,
)
    requires
        repository.len() > 1,
        repository[0] == '/',
        repository.last() != '/',
        !(repository.last() == '.' && repository[repository.len() - 2] == '/'),
        crate::paths::plain_name(name, false),
        !crate::strings::white(name.last()),
    ensures
        worktree_owner(directory, "gitdir: "@ + repository + "/.git/worktrees/"@ + name + "\n"@, false)
            == Some(repository),
{
    reveal_strlit("gitdir: ");
    reveal_strlit("/.git/worktrees/");
    reveal_strlit(".git");
    reveal_strlit("worktrees");
    reveal_strlit("\n");
    let dot_git = repository.push('/') + ".git"@;
    let worktrees = dot_git.push('/') + "worktrees"@;
    let target = worktrees.push('/') + name;
    assert(dot_git.last() == 't' && worktrees.last() == 's');
    assert(!crate::paths::separator('.', false));
    assert(crate::paths::plain_name(".git"@, false)) by {
        assert(".git"@ != seq!['.'] && ".git"@ != seq!['.', '.']) by {
            assert(seq!['.'].len() == 1 && seq!['.', '.'].len() == 2);
        }
    }
    assert(crate::paths::plain_name("worktrees"@, false)) by {
        assert("worktrees"@ != seq!['.'] && "worktrees"@ != seq!['.', '.']) by {
            assert(seq!['.'].len() == 1 && seq!['.', '.'].len() == 2);
        }
    }
    crate::paths::law_above_a_name_lies_its_directory(repository, ".git"@);
    crate::paths::law_above_a_name_lies_its_directory(dot_git, "worktrees"@);
    crate::paths::law_above_a_name_lies_its_directory(worktrees, name);
    assert("gitdir: "@ + repository + "/.git/worktrees/"@ + name + "\n"@ =~= "gitdir: "@ + target
        + "\n"@);
    assert(target[0] == '/' && target.last() == name.last());
    law_pointers_are_read_back(target);
    crate::paths::law_absolute_paths_begin_at_a_root(target);
}

/// A session is active exactly where a running process holds a lock on it.
pub proof fn law_active_sessions_have_a_holder(names: Seq<Seq<char>>, live: Seq<u32>, pid: u32, at: int)
    ensures
        0 <= at < names.len() && lock_pid(names[at]) == Some(pid) && live.contains(pid)
            ==> holds_live_lock(names, live),
        holds_live_lock(names, live) ==> exists|i: int, p: u32|
            0 <= i < names.len() && #[trigger] lock_pid(names[i]) == Some(p) && #[trigger] live.contains(
                p,
            ),
{
    if holds_live_lock(names, live) {
        let i = choose|i: int|
            0 <= i < names.len() && (lock_pid(#[trigger] names[i]) matches Some(p) && live.contains(p));
        let p = lock_pid(names[i])->0;
        assert(lock_pid(names[i]) == Some(p) && live.contains(p));
    }
}

/// The search for a project ends at the first directory with a repository in it, goes up from one
/// without, and ends without a project at the top.
pub proof fn law_the_nearest_repository_is_the_project(
    directory: Seq<char>,
    entry: GitEntry,
    windows: bool,
    step: ProjectStep,
)
    requires
        search_step(directory, entry, windows, step),
    ensures
        step is Found <==> !(entry is Missing),
        entry is Directory ==> step->Found_0@ == directory,
        step matches ProjectStep::LookInto(up) ==> crate::paths::parent(directory, windows) == Some(up@),
        step is NotFound ==> entry is Missing && crate::paths::parent(directory, windows) is None,
{
}

/// The mark of a long path is taken off, and nothing else is.
pub proof fn law_the_long_mark_is_taken_off(path: Seq<char>)
    ensures
        without_long_prefix("\\\\?\\"@ + path) == path,
        !crate::strings::has_prefix(path, "\\\\?\\"@) ==> without_long_prefix(path) == path,
{
    reveal_strlit("\\\\?\\");
    let marked = "\\\\?\\"@ + path;
    assert(marked.take(4) =~= "\\\\?\\"@);
    assert(marked.skip(4) =~= path);
}

} // verus!
