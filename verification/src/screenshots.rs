//! What the pictures of the program show: sessions that were made up for them.

use crate::session::{Session, Timestamp};
use crate::strings::append_text;
use vstd::prelude::*;

pub mod svg;

verus! {

/// The made-up sessions: id, project, title, how many minutes ago each was touched, and whether it is
/// in use.
pub open spec fn demo_entry(index: int) -> (Seq<char>, Seq<char>, Seq<char>, int, bool) {
    if index == 0 {
        (
            "9f1c8e42-demo-4a77-9c31-5b6d0e2a4f18"@,
            "copilot-session-tui"@,
            "Add a tree view to the PR inspector"@,
            4,
            true,
        )
    } else if index == 1 {
        (
            "2b7d5a10-demo-4c02-8e4f-1a9c7b3d6e05"@,
            "copilot-session-tui"@,
            "Speed up session detail parsing"@,
            72,
            false,
        )
    } else if index == 2 {
        (
            "c4e90f38-demo-4b61-9d27-6f2a8c1e4b93"@,
            "copilot-session-tui"@,
            "Make scratchpad mouse selection reliable"@,
            190,
            false,
        )
    } else if index == 3 {
        (
            "7a3f6c21-demo-4e58-b0c9-3d8e5f7a2c14"@,
            "copilot-session-tui"@,
            "Forward OSC 52 clipboard writes through the mux"@,
            1500,
            false,
        )
    } else if index == 4 {
        (
            "e58b2d47-demo-49af-8c13-7b0d6e4a9f26"@,
            "acme-api"@,
            "Add a --json flag to the status command"@,
            2900,
            false,
        )
    } else if index == 5 {
        (
            "1d6a9b53-demo-4f70-a284-9c5e3b7d0a61"@,
            "acme-api"@,
            "Migrate CI to the slim runner image"@,
            4300,
            false,
        )
    } else if index == 6 {
        (
            "b0c37e94-demo-4a15-9f68-2e4d8a6c5b07"@,
            "dotfiles"@,
            "Tidy shell aliases and the prompt"@,
            7200,
            false,
        )
    } else if index == 7 {
        (
            "58e1f4a6-demo-4d93-b7c0-8a2f6e9d3b45"@,
            "notes"@,
            "Draft the v0.12 release notes"@,
            10080,
            false,
        )
    } else if index == 8 {
        (
            "3f8c0d29-demo-4b46-85a7-1e9b2f6c4d80"@,
            "acme-web"@,
            "Replace the settings modal with a route"@,
            13400,
            false,
        )
    } else if index == 9 {
        (
            "a71e5b08-demo-4c3d-92f4-6b0a8d1e7c53"@,
            "acme-web"@,
            "Audit bundle size after the router upgrade"@,
            17900,
            false,
        )
    } else {
        (
            "6c2b9e74-demo-4a81-b3d5-0f7c4a2e8b19"@,
            "infra-terraform"@,
            "Split the staging workspace out of prod"@,
            21600,
            false,
        )
    }
}

fn demo_fields(index: usize) -> (entry: (&'static str, &'static str, &'static str, i64, bool))
    requires
        index < 11,
    ensures
        (entry.0@, entry.1@, entry.2@, entry.3 as int, entry.4) == demo_entry(index as int),
        0 < entry.3 <= 21600,
{
    match index {
        0 => (
            "9f1c8e42-demo-4a77-9c31-5b6d0e2a4f18",
            "copilot-session-tui",
            "Add a tree view to the PR inspector",
            4,
            true,
        ),
        1 => (
            "2b7d5a10-demo-4c02-8e4f-1a9c7b3d6e05",
            "copilot-session-tui",
            "Speed up session detail parsing",
            72,
            false,
        ),
        2 => (
            "c4e90f38-demo-4b61-9d27-6f2a8c1e4b93",
            "copilot-session-tui",
            "Make scratchpad mouse selection reliable",
            190,
            false,
        ),
        3 => (
            "7a3f6c21-demo-4e58-b0c9-3d8e5f7a2c14",
            "copilot-session-tui",
            "Forward OSC 52 clipboard writes through the mux",
            1500,
            false,
        ),
        4 => (
            "e58b2d47-demo-49af-8c13-7b0d6e4a9f26",
            "acme-api",
            "Add a --json flag to the status command",
            2900,
            false,
        ),
        5 => (
            "1d6a9b53-demo-4f70-a284-9c5e3b7d0a61",
            "acme-api",
            "Migrate CI to the slim runner image",
            4300,
            false,
        ),
        6 => (
            "b0c37e94-demo-4a15-9f68-2e4d8a6c5b07",
            "dotfiles",
            "Tidy shell aliases and the prompt",
            7200,
            false,
        ),
        7 => (
            "58e1f4a6-demo-4d93-b7c0-8a2f6e9d3b45",
            "notes",
            "Draft the v0.12 release notes",
            10080,
            false,
        ),
        8 => (
            "3f8c0d29-demo-4b46-85a7-1e9b2f6c4d80",
            "acme-web",
            "Replace the settings modal with a route",
            13400,
            false,
        ),
        9 => (
            "a71e5b08-demo-4c3d-92f4-6b0a8d1e7c53",
            "acme-web",
            "Audit bundle size after the router upgrade",
            17900,
            false,
        ),
        _ => (
            "6c2b9e74-demo-4a81-b3d5-0f7c4a2e8b19",
            "infra-terraform",
            "Split the staging workspace out of prod",
            21600,
            false,
        ),
    }
}

/// A moment some minutes before another, at least one. A leap second counts as the second behind it.
pub open spec fn minutes_before(now: Timestamp, minutes: int) -> Timestamp {
    if now.nanos >= 1_000_000_000 {
        Timestamp {
            seconds: (now.seconds + 1 - minutes * 60) as i64,
            nanos: (now.nanos - 1_000_000_000) as u32,
        }
    } else {
        Timestamp { seconds: (now.seconds - minutes * 60) as i64, nanos: now.nanos }
    }
}

/// The files that the first of the made-up sessions edited.
pub open spec fn demo_files() -> Seq<Seq<char>> {
    seq![
        "src/ui/file_tree.rs"@,
        "src/ui/github_inspector.rs"@,
        "src/mux_input.rs"@,
        "src/app.rs"@,
        "README.md"@,
    ]
}

/// Whether a session is the made-up one at a position. Only the first, which is selected, has its
/// details.
pub open spec fn is_demo(session: Session, index: int, now: Timestamp) -> bool {
    let entry = demo_entry(index);
    let updated = minutes_before(now, entry.3);
    &&& session.id@ == entry.0
    &&& session.cwd@ == "/home/dev/src/"@ + entry.1
    &&& session.project_root@ == session.cwd@
    &&& session.summary matches Some(summary) && summary@ == entry.2
    &&& session.created_at == Some(minutes_before(updated, 45))
    &&& session.updated_at == Some(updated)
    &&& session.is_active == entry.4
    &&& session.dir_path@ == "/tmp/"@ + entry.0
    &&& session.details_parsed_len == 0
    &&& if index == 0 {
        &&& crate::strings::text_views(session.edited_files@) == demo_files()
        &&& session.last_user_message matches Some(message) && message@
            == "The Files tab is hard to scan when a PR touches a dozen paths. Could the changed files render as a tree on the left, with the selected file's diff in a pane on the right?"@
        &&& session.turn_count == 47
        &&& session.tool_call_count == 312
    } else {
        &&& session.edited_files@.len() == 0
        &&& session.last_user_message is None
        &&& session.turn_count == 0
        &&& session.tool_call_count == 0
    }
}

fn earlier(now: Timestamp, minutes: i64) -> (at: Timestamp)
    requires
        now.valid(),
        0 < minutes <= OLDEST_MINUTES,
        minutes_before(now, minutes as int).valid(),
    ensures
        at == minutes_before(now, minutes as int),
{
    if now.nanos >= 1_000_000_000 {
        Timestamp { seconds: now.seconds + 1 - minutes * 60, nanos: now.nanos - 1_000_000_000 }
    } else {
        Timestamp { seconds: now.seconds - minutes * 60, nanos: now.nanos }
    }
}

/// How many minutes before the moment of the pictures the oldest session began.
pub const OLDEST_MINUTES: i64 = 21645;

/// The sessions that the pictures show, as of a moment. None of them is anyone's. The calendar must
/// know the moment at which the oldest began too.
pub fn demo_sessions(now: Timestamp) -> (sessions: Vec<Session>)
    requires
        now.valid(),
        minutes_before(now, OLDEST_MINUTES as int).valid(),
    ensures
        sessions@.len() == 11,
        forall|i: int| 0 <= i < 11 ==> is_demo(#[trigger] sessions@[i], i, now),
{
    let mut sessions: Vec<Session> = Vec::new();
    let mut i: usize = 0;
    while i < 11
        invariant
            i <= 11,
            now.valid(),
            minutes_before(now, OLDEST_MINUTES as int).valid(),
            sessions@.len() == i,
            forall|j: int| 0 <= j < i ==> is_demo(#[trigger] sessions@[j], j, now),
        decreases 11 - i,
    {
        let (id, project, summary, minutes, is_active) = demo_fields(i);
        let updated = earlier(now, minutes);
        let created = earlier(updated, 45);
        let mut root = "/home/dev/src/".to_owned();
        append_text(&mut root, project);
        let mut dir_path = "/tmp/".to_owned();
        append_text(&mut dir_path, id);
        let mut session = Session {
            id: id.to_owned(),
            cwd: root.clone(),
            project_root: root,
            summary: Some(summary.to_owned()),
            created_at: Some(created),
            updated_at: Some(updated),
            is_active,
            dir_path,
            edited_files: Vec::new(),
            last_user_message: None,
            turn_count: 0,
            tool_call_count: 0,
            details_parsed_len: 0,
        };
        if i == 0 {
            let mut files: Vec<String> = Vec::new();
            files.push("src/ui/file_tree.rs".to_owned());
            files.push("src/ui/github_inspector.rs".to_owned());
            files.push("src/mux_input.rs".to_owned());
            files.push("src/app.rs".to_owned());
            files.push("README.md".to_owned());
            assert(crate::strings::text_views(files@) =~= demo_files());
            session.edited_files = files;
            session.last_user_message = Some(
                "The Files tab is hard to scan when a PR touches a dozen paths. Could the changed files render as a tree on the left, with the selected file's diff in a pane on the right?".to_owned(),
            );
            session.turn_count = 47;
            session.tool_call_count = 312;
        }
        sessions.push(session);
        i = i + 1;
    }
    sessions
}

} // verus!
