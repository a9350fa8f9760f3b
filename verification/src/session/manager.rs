//! How sessions are started, resumed and renamed.

use super::cleanup::RemovalOutcome;
use super::registry::ManagedWorktree;
use super::worktree::{quote, Failure};
use crate::strings::{
    append_text, chars_of, decimal_text, is_control, join_texts, lines_of, starts_with_text,
    text_of, text_of_bytes, trimmed,
};
use vstd::prelude::*;

verus! {

/// What the user set for every session.
#[derive(Debug)]
pub struct UserConfig {
    pub yolo: bool,
    pub max_autopilot_continues: Option<u32>,
    pub model: Option<String>,
    pub reasoning_effort: Option<String>,
}

impl Default for UserConfig {
    fn default() -> (config: UserConfig)
        ensures
            config == (UserConfig {
                yolo: false,
                max_autopilot_continues: None,
                model: None,
                reasoning_effort: None,
            }),
    {
        UserConfig {
            yolo: false,
            max_autopilot_continues: None,
            model: None,
            reasoning_effort: None,
        }
    }
}

/// What a project sets for the sessions in it. A setting it leaves open is absent.
#[derive(Clone, Copy, PartialEq, Eq, Structural, Debug)]
pub struct ProjectSettings {
    pub yolo: Option<bool>,
    pub max_autopilot_continues: Option<u32>,
}

/// The settings that apply to one launch, after the repository has had its say.
#[derive(Clone, Copy, PartialEq, Eq, Structural, Debug)]
pub struct LaunchPolicy {
    pub yolo: bool,
    /// `None` leaves Copilot's own default alone.
    pub max_autopilot_continues: Option<u32>,
}

/// The settings that apply to a launch.
pub open spec fn policy_for(config: UserConfig, project: Option<ProjectSettings>) -> LaunchPolicy {
    let own = LaunchPolicy {
        yolo: config.yolo,
        max_autopilot_continues: config.max_autopilot_continues,
    };
    match project {
        None => own,
        Some(p) => LaunchPolicy {
            yolo: match p.yolo {
                Some(yolo) => yolo,
                None => own.yolo,
            },
            max_autopilot_continues: if p.max_autopilot_continues is Some {
                p.max_autopilot_continues
            } else {
                own.max_autopilot_continues
            },
        },
    }
}

impl LaunchPolicy {
    /// The settings that apply to work in a project, or outside one. What the project says wins over
    /// what the user set; a project whose settings cannot be read says nothing.
    pub fn resolve(config: &UserConfig, project: Option<ProjectSettings>) -> (policy: LaunchPolicy)
        ensures
            policy == policy_for(*config, project),
    {
        let mut policy = LaunchPolicy {
            yolo: config.yolo,
            max_autopilot_continues: config.max_autopilot_continues,
        };
        if let Some(p) = project {
            if let Some(yolo) = p.yolo {
                policy.yolo = yolo;
            }
            if p.max_autopilot_continues.is_some() {
                policy.max_autopilot_continues = p.max_autopilot_continues;
            }
        }
        policy
    }
}

/// The arguments for every start of Copilot.
pub open spec fn runtime_arguments(policy: LaunchPolicy) -> Seq<Seq<char>> {
    (if policy.yolo {
        seq!["--yolo"@]
    } else {
        Seq::empty()
    }) + (match policy.max_autopilot_continues {
        Some(limit) => seq!["--max-autopilot-continues="@ + crate::strings::decimal(limit as nat)],
        None => Seq::empty(),
    })
}

/// The arguments for a session that is created. Copilot keeps the model and the effort with the
/// session, so they are given only then.
pub open spec fn creation_arguments(config: UserConfig, policy: LaunchPolicy) -> Seq<Seq<char>> {
    runtime_arguments(policy) + (match config.model {
        Some(model) => seq!["--model="@ + model@],
        None => Seq::empty(),
    }) + (match config.reasoning_effort {
        Some(effort) => seq!["--reasoning-effort="@ + effort@],
        None => Seq::empty(),
    })
}

/// The arguments for a session that is resumed.
pub open spec fn resume_arguments(session_id: Seq<char>, policy: LaunchPolicy) -> Seq<Seq<char>> {
    seq!["--resume="@ + session_id] + runtime_arguments(policy)
}

/// The arguments for a session that is created under an id.
pub open spec fn new_arguments(
    session_id: Seq<char>,
    config: UserConfig,
    policy: LaunchPolicy,
) -> Seq<Seq<char>> {
    seq!["--session-id="@ + session_id] + creation_arguments(config, policy)
}

fn option_with(name: &str, value: &str) -> (text: String)
    ensures
        text@ == name@ + value@,
{
    let mut text = name.to_owned();
    append_text(&mut text, value);
    text
}

fn push_argument(args: &mut Vec<String>, text: String)
    ensures
        crate::strings::text_views(final(args)@) == crate::strings::text_views(old(args)@).push(
            text@,
        ),
{
    proof {
        crate::strings::lemma_text_views_push(args@, text);
    }
    args.push(text);
}

fn push_runtime_args(args: &mut Vec<String>, policy: &LaunchPolicy)
    ensures
        crate::strings::text_views(final(args)@) == crate::strings::text_views(old(args)@)
            + runtime_arguments(*policy),
{
    let ghost before = crate::strings::text_views(args@);
    if policy.yolo {
        push_argument(args, "--yolo".to_owned());
    }
    if let Some(limit) = policy.max_autopilot_continues {
        let value = decimal_text(limit as u64);
        push_argument(args, option_with("--max-autopilot-continues=", value.as_str()));
    }
    assert(crate::strings::text_views(args@) =~= before + runtime_arguments(*policy));
}

fn push_creation_args(args: &mut Vec<String>, config: &UserConfig, policy: &LaunchPolicy)
    ensures
        crate::strings::text_views(final(args)@) == crate::strings::text_views(old(args)@)
            + creation_arguments(*config, *policy),
{
    let ghost before = crate::strings::text_views(args@);
    push_runtime_args(args, policy);
    if let Some(model) = &config.model {
        push_argument(args, option_with("--model=", model.as_str()));
    }
    if let Some(effort) = &config.reasoning_effort {
        push_argument(args, option_with("--reasoning-effort=", effort.as_str()));
    }
    assert(crate::strings::text_views(args@) =~= before + creation_arguments(*config, *policy));
}

/// The arguments for every start of Copilot.
pub fn runtime_args(policy: &LaunchPolicy) -> (args: Vec<String>)
    ensures
        crate::strings::text_views(args@) == runtime_arguments(*policy),
{
    let mut args: Vec<String> = Vec::new();
    push_runtime_args(&mut args, policy);
    assert(crate::strings::text_views(args@) =~= runtime_arguments(*policy));
    args
}

/// The arguments for a session that is created under an id of Copilot's choice.
pub fn new_session_config_args(config: &UserConfig, policy: &LaunchPolicy) -> (args: Vec<String>)
    ensures
        crate::strings::text_views(args@) == creation_arguments(*config, *policy),
{
    let mut args: Vec<String> = Vec::new();
    push_creation_args(&mut args, config, policy);
    assert(crate::strings::text_views(args@) =~= creation_arguments(*config, *policy));
    args
}

/// The arguments for a session that is resumed.
pub fn resume_args(session_id: &str, policy: &LaunchPolicy) -> (args: Vec<String>)
    ensures
        crate::strings::text_views(args@) == resume_arguments(session_id@, *policy),
{
    let mut args: Vec<String> = Vec::new();
    push_argument(&mut args, option_with("--resume=", session_id));
    push_runtime_args(&mut args, policy);
    assert(crate::strings::text_views(args@) =~= resume_arguments(session_id@, *policy));
    args
}

/// Whether a text has the shape of a random identifier: 36 characters, lower-case hexadecimal digits
/// in groups, with the marks of a random one.
pub open spec fn random_id_shape(id: Seq<char>) -> bool {
    &&& id.len() == 36
    &&& forall|i: int|
        0 <= i < 36 ==> if i == 8 || i == 13 || i == 18 || i == 23 {
            #[trigger] id[i] == '-'
        } else {
            ('0' <= id[i] && id[i] <= '9') || ('a' <= id[i] && id[i] <= 'f')
        }
    &&& id[14] == '4'
    &&& id[19] == '8' || id[19] == '9' || id[19] == 'a' || id[19] == 'b'
}

/// `Uuid::new_v4` of the `uuid` crate, and its text: a random identifier. Nothing but its shape is
/// said of it.
#[verifier::external_body]
pub(crate) fn random_id() -> (id: String)
    ensures
        random_id_shape(id@),
{
    uuid::Uuid::new_v4().to_string()
}

/// The arguments for a session that is created under a given id.
pub fn new_session_args_for(
    session_id: &str,
    config: &UserConfig,
    policy: &LaunchPolicy,
) -> (args: Vec<String>)
    ensures
        crate::strings::text_views(args@) == new_arguments(session_id@, *config, *policy),
{
    let mut args: Vec<String> = Vec::new();
    push_argument(&mut args, option_with("--session-id=", session_id));
    push_creation_args(&mut args, config, policy);
    assert(crate::strings::text_views(args@) =~= new_arguments(session_id@, *config, *policy));
    args
}

/// The arguments for a session that is created, and the id it will have, which is chosen here: a pane
/// can bind what belongs to the session to it from the moment it starts.
pub fn new_session_args(config: &UserConfig, policy: &LaunchPolicy) -> (r: (Vec<String>, String))
    ensures
        crate::strings::text_views(r.0@) == new_arguments(r.1@, *config, *policy),
        random_id_shape(r.1@),
{
    let session_id = random_id();
    let args = new_session_args_for(session_id.as_str(), config, policy);
    (args, session_id)
}

/// What the search for the Copilot program found.
#[derive(Debug)]
pub struct CopilotProbe {
    /// The program that is started.
    pub program: String,
    /// The first line of what it says of its version.
    pub version: Option<String>,
    /// Whether it could be asked for its version.
    pub version_ok: bool,
}

/// The message that there is no Copilot program.
pub open spec fn copilot_missing() -> Seq<char> {
    "Could not find copilot CLI. Make sure it's installed and in PATH."@
}

/// The program to start.
pub fn find_copilot(probe: &Option<CopilotProbe>) -> (r: Result<String, String>)
    ensures
        match *probe {
            Some(p) => r matches Ok(program) && program@ == p.program@,
            None => r matches Err(message) && message@ == copilot_missing(),
        },
{
    match probe {
        Some(p) => Ok(p.program.clone()),
        None => Err(
            "Could not find copilot CLI. Make sure it's installed and in PATH.".to_owned(),
        ),
    }
}

/// The program and the arguments for resuming a session inside a pane.
pub fn resume_command(
    probe: &Option<CopilotProbe>,
    session_id: &str,
    config: &UserConfig,
    project: Option<ProjectSettings>,
) -> (r: Result<(String, Vec<String>), String>)
    ensures
        match *probe {
            Some(p) => r matches Ok(command) && command.0@ == p.program@
                && crate::strings::text_views(command.1@) == resume_arguments(
                session_id@,
                policy_for(*config, project),
            ),
            None => r matches Err(message) && message@ == copilot_missing(),
        },
{
    match find_copilot(probe) {
        Ok(program) => {
            let policy = LaunchPolicy::resolve(config, project);
            Ok((program, resume_args(session_id, &policy)))
        },
        Err(message) => Err(message),
    }
}

/// The program and the arguments for a new session inside a pane, and the id it will have.
pub fn new_session_command(
    probe: &Option<CopilotProbe>,
    config: &UserConfig,
    project: Option<ProjectSettings>,
) -> (r: Result<(String, Vec<String>, String), String>)
    ensures
        match *probe {
            Some(p) => r matches Ok(command) && command.0@ == p.program@ && random_id_shape(
                command.2@,
            ) && crate::strings::text_views(command.1@) == new_arguments(
                command.2@,
                *config,
                policy_for(*config, project),
            ),
            None => r matches Err(message) && message@ == copilot_missing(),
        },
{
    match find_copilot(probe) {
        Ok(program) => {
            let policy = LaunchPolicy::resolve(config, project);
            let (args, session_id) = new_session_args(config, &policy);
            Ok((program, args, session_id))
        },
        Err(message) => Err(message),
    }
}

/// A program to be run in the foreground: its arguments, and the directory it runs in where that is
/// not the present one.
#[derive(Debug)]
pub struct Launch {
    pub program: String,
    pub args: Vec<String>,
    pub directory: Option<String>,
}

fn directory_if(cwd: &str, chosen: bool) -> (directory: Option<String>)
    ensures
        match directory {
            Some(d) => chosen && d@ == cwd@,
            None => !chosen,
        },
{
    if chosen {
        Some(cwd.to_owned())
    } else {
        None
    }
}

/// How a session is resumed in the foreground. `exists` says whether its directory does.
pub fn resume_session(
    probe: &Option<CopilotProbe>,
    session_id: &str,
    cwd: &str,
    exists: bool,
    config: &UserConfig,
    project: Option<ProjectSettings>,
) -> (r: Result<Launch, String>)
    ensures
        match *probe {
            Some(p) => {
                &&& r matches Ok(launch)
                &&& launch.program@ == p.program@
                &&& crate::strings::text_views(launch.args@) == resume_arguments(
                    session_id@,
                    policy_for(*config, project),
                )
                &&& match launch.directory {
                    Some(d) => cwd@.len() > 0 && exists && d@ == cwd@,
                    None => !(cwd@.len() > 0 && exists),
                }
            },
            None => r matches Err(message) && message@ == copilot_missing(),
        },
{
    match resume_command(probe, session_id, config, project) {
        Ok((program, args)) => Ok(
            Launch { program, args, directory: directory_if(cwd, !cwd.is_empty() && exists) },
        ),
        Err(message) => Err(message),
    }
}

/// How a session is started in the foreground. `exists` says whether its directory does.
pub fn start_new_session(
    probe: &Option<CopilotProbe>,
    cwd: &str,
    exists: bool,
    config: &UserConfig,
    project: Option<ProjectSettings>,
) -> (r: Result<Launch, String>)
    ensures
        match *probe {
            Some(p) => {
                &&& r matches Ok(launch)
                &&& launch.program@ == p.program@
                &&& crate::strings::text_views(launch.args@) == creation_arguments(
                    *config,
                    policy_for(*config, project),
                )
                &&& match launch.directory {
                    Some(d) => exists && d@ == cwd@,
                    None => !exists,
                }
            },
            None => r matches Err(message) && message@ == copilot_missing(),
        },
{
    match find_copilot(probe) {
        Ok(program) => {
            let policy = LaunchPolicy::resolve(config, project);
            Ok(
                Launch {
                    program,
                    args: new_session_config_args(config, &policy),
                    directory: directory_if(cwd, exists),
                },
            )
        },
        Err(message) => Err(message),
    }
}

/// Whether one of a description's lines begins with a key.
pub open spec fn has_key(lines: Seq<Seq<char>>, key: Seq<char>) -> bool {
    exists|i: int| 0 <= i < lines.len() && crate::strings::has_prefix(#[trigger] lines[i], key)
}

/// A line of a description under a new title. The title is the name, or the summary where there is
/// no name.
pub open spec fn retitled(line: Seq<char>, has_name: bool, title: Seq<char>) -> Seq<char> {
    if crate::strings::has_prefix(line, "name:"@) {
        "name: "@ + title
    } else if !has_name && crate::strings::has_prefix(line, "summary:"@) {
        "summary: "@ + title
    } else {
        line
    }
}

/// The lines of a description under a new title.
pub open spec fn retitled_lines(lines: Seq<Seq<char>>, title: Seq<char>) -> Seq<Seq<char>> {
    let has_name = has_key(lines, "name:"@);
    lines.map_values(|line: Seq<char>| retitled(line, has_name, title))
}

/// The lines of a description without a title, with one behind the id.
pub open spec fn titled_lines(lines: Seq<Seq<char>>, title: Seq<char>) -> Seq<Seq<char>>
    decreases lines.len(),
{
    if lines.len() == 0 {
        Seq::empty()
    } else {
        let before = titled_lines(lines.drop_last(), title).push(lines.last());
        if crate::strings::has_prefix(lines.last(), "id:"@) {
            before.push("name: "@ + title)
        } else {
            before
        }
    }
}

/// The lines of a description after a session was renamed.
pub open spec fn renamed_lines(lines: Seq<Seq<char>>, title: Seq<char>) -> Seq<Seq<char>> {
    if has_key(lines, "name:"@) || has_key(lines, "summary:"@) {
        retitled_lines(lines, title)
    } else {
        titled_lines(lines, title)
    }
}

/// The description of a session after it was renamed.
pub open spec fn renamed_text(content: Seq<char>, title: Seq<char>) -> Seq<char> {
    crate::strings::joined_texts(
        renamed_lines(crate::strings::lines(content), title),
        "\n"@,
    ) + "\n"@
}

fn any_line_starts(lines: &Vec<String>, key: &str) -> (r: bool)
    ensures
        r == has_key(crate::strings::text_views(lines@), key@),
{
    let ghost views = crate::strings::text_views(lines@);
    let mut i: usize = 0;
    while i < lines.len()
        invariant
            i <= lines@.len(),
            views == crate::strings::text_views(lines@),
            forall|j: int| 0 <= j < i ==> !crate::strings::has_prefix(#[trigger] views[j], key@),
        decreases lines@.len() - i,
    {
        assert(views[i as int] == lines@[i as int]@);
        if starts_with_text(lines[i].as_str(), key) {
            return true;
        }
        i = i + 1;
    }
    false
}

/// The description of a session after it was renamed.
pub fn rename_session(content: &str, new_name: &str) -> (renamed: String)
    ensures
        renamed@ == renamed_text(content@, new_name@),
        renamed@ == crate::strings::joined_texts(
            renamed_lines(crate::strings::lines(content@), new_name@),
            "\n"@,
        ) + "\n"@,
{
    let lines = lines_of(&chars_of(content));
    let ghost views = crate::strings::text_views(lines@);
    let has_name = any_line_starts(&lines, "name:");
    let has_summary = any_line_starts(&lines, "summary:");
    let titled = has_name || has_summary;
    let mut new_lines: Vec<String> = Vec::new();
    let mut i: usize = 0;
    assert(crate::strings::text_views(new_lines@) =~= Seq::<Seq<char>>::empty());
    while i < lines.len()
        invariant
            i <= lines@.len(),
            views == crate::strings::text_views(lines@),
            has_name == has_key(views, "name:"@),
            has_summary == has_key(views, "summary:"@),
            titled == (has_name || has_summary),
            titled ==> crate::strings::text_views(new_lines@) == retitled_lines(
                views,
                new_name@,
            ).take(i as int),
            !titled ==> crate::strings::text_views(new_lines@) == titled_lines(
                views.take(i as int),
                new_name@,
            ),
        decreases lines@.len() - i,
    {
        let line = lines[i].as_str();
        let ghost before = crate::strings::text_views(new_lines@);
        proof {
            assert(views[i as int] == line@);
            assert(views.take(i + 1).drop_last() == views.take(i as int));
            assert(views.take(i + 1).last() == line@);
        }
        if titled {
            if starts_with_text(line, "name:") {
                push_argument(&mut new_lines, option_with("name: ", new_name));
            } else if !has_name && starts_with_text(line, "summary:") {
                push_argument(&mut new_lines, option_with("summary: ", new_name));
            } else {
                push_argument(&mut new_lines, line.to_owned());
            }
            assert(crate::strings::text_views(new_lines@) =~= retitled_lines(
                views,
                new_name@,
            ).take(i + 1));
        } else {
            push_argument(&mut new_lines, line.to_owned());
            if starts_with_text(line, "id:") {
                push_argument(&mut new_lines, option_with("name: ", new_name));
            }
        }
        i = i + 1;
    }
    proof {
        assert(views.take(i as int) == views);
        assert(retitled_lines(views, new_name@).take(i as int) == retitled_lines(views, new_name@));
    }
    let mut renamed = join_texts(&new_lines, "\n");
    append_text(&mut renamed, "\n");
    renamed
}

/// The first line, stripped of the white space around it, that is not empty.
pub open spec fn first_filled(lines: Seq<Seq<char>>, from: int) -> Option<Seq<char>>
    decreases lines.len() - from,
{
    if from < 0 || from >= lines.len() {
        None
    } else if crate::strings::trim(lines[from]).len() > 0 {
        Some(crate::strings::trim(lines[from]))
    } else {
        first_filled(lines, from + 1)
    }
}

/// A text without its control characters.
pub open spec fn without_controls(s: Seq<char>) -> Seq<char>
    decreases s.len(),
{
    if s.len() == 0 {
        Seq::empty()
    } else if crate::strings::control(s.last()) {
        without_controls(s.drop_last())
    } else {
        without_controls(s.drop_last()).push(s.last())
    }
}

/// A text without the dots at its end.
pub open spec fn without_dots(s: Seq<char>) -> Seq<char>
    decreases s.len(),
{
    if s.len() > 0 && s.last() == '.' {
        without_dots(s.drop_last())
    } else {
        s
    }
}

/// What a program's banner says of its version: its first line, without control characters, cut to 80
/// characters, without the dots at its end.
pub open spec fn version_of(banner: Seq<char>) -> Option<Seq<char>> {
    match first_filled(crate::strings::lines(banner), 0) {
        None => None,
        Some(line) => {
            let clean = without_controls(line);
            let cut = if clean.len() > 80 {
                clean.take(80)
            } else {
                clean
            };
            let version = crate::strings::trim(without_dots(cut));
            if version.len() == 0 {
                None
            } else {
                Some(version)
            }
        },
    }
}

proof fn lemma_without_dots_take(s: Seq<char>, n: int)
    requires
        0 <= n <= s.len(),
        forall|i: int| n <= i < s.len() ==> s[i] == '.',
        n == 0 || s[n - 1] != '.',
    ensures
        without_dots(s) == s.take(n),
    decreases s.len(),
{
    if s.len() > n {
        assert(s.drop_last().take(n) == s.take(n));
        lemma_without_dots_take(s.drop_last(), n);
    } else {
        assert(s.take(n) == s);
    }
}

/// What a program's banner says of its version.
pub fn version_line(stdout: &str) -> (version: Option<String>)
    ensures
        match version {
            Some(v) => version_of(stdout@) == Some(v@),
            None => version_of(stdout@) is None,
        },
{
    let lines = lines_of(&chars_of(stdout));
    let ghost views = crate::strings::text_views(lines@);
    let mut i: usize = 0;
    while i < lines.len()
        invariant
            i <= lines@.len(),
            views == crate::strings::text_views(lines@),
            views == crate::strings::lines(stdout@),
            first_filled(views, 0) == first_filled(views, i as int),
        decreases lines@.len() - i,
    {
        assert(views[i as int] == lines@[i as int]@);
        let line = trimmed(lines[i].as_str());
        if !line.as_str().is_empty() {
            return version_of_line(line.as_str(), stdout);
        }
        i = i + 1;
    }
    None
}

fn version_of_line(line: &str, banner: &str) -> (version: Option<String>)
    requires
        first_filled(crate::strings::lines(banner@), 0) == Some(line@),
    ensures
        match version {
            Some(v) => version_of(banner@) == Some(v@),
            None => version_of(banner@) is None,
        },
{
    let chars = chars_of(line);
    let mut clean: Vec<char> = Vec::new();
    let mut i: usize = 0;
    while i < chars.len()
        invariant
            i <= chars@.len(),
            chars@ == line@,
            clean@ == without_controls(chars@.take(i as int)),
        decreases chars@.len() - i,
    {
        assert(chars@.take(i + 1).drop_last() == chars@.take(i as int));
        if !is_control(chars[i]) {
            clean.push(chars[i]);
        }
        i = i + 1;
    }
    assert(chars@.take(i as int) == line@);
    let ghost whole = clean@;
    if clean.len() > 80 {
        clean.truncate(80);
        assert(clean@ == whole.take(80));
    }
    let ghost cut = clean@;
    let mut end: usize = clean.len();
    while end > 0 && clean[end - 1] == '.'
        invariant
            end <= clean@.len(),
            clean@ == cut,
            forall|j: int| end <= j < cut.len() ==> cut[j] == '.',
        decreases end,
    {
        end = end - 1;
    }
    proof {
        lemma_without_dots_take(cut, end as int);
    }
    clean.truncate(end);
    assert(clean@ == without_dots(cut));
    let version = trimmed(text_of(&clean).as_str());
    if version.as_str().is_empty() {
        None
    } else {
        Some(version)
    }
}

/// What a program printed when it was asked for its version, and whether it succeeded.
#[derive(Debug)]
pub struct ProbeOutput {
    pub stdout: Vec<u8>,
    pub success: bool,
}

/// What was found where npm keeps its programs: what `npm root -g` printed, whether there is a
/// Copilot program below that, and what it printed.
#[derive(Debug)]
pub struct NpmCopilot {
    pub root_stdout: Vec<u8>,
    pub exists: bool,
    pub output: Option<ProbeOutput>,
}

/// Where npm keeps the Copilot program.
pub open spec fn npm_program(root_stdout: Seq<u8>) -> Seq<char> {
    crate::strings::trim(crate::strings::lossy_utf8(root_stdout))
        + "/@github/copilot/bin/copilot"@
}

/// Where npm keeps the Copilot program.
pub fn npm_copilot_path(root_stdout: &Vec<u8>) -> (path: String)
    ensures
        path@ == npm_program(root_stdout@),
{
    let text = text_of_bytes(root_stdout);
    let mut path = trimmed(text.as_str());
    append_text(&mut path, "/@github/copilot/bin/copilot");
    path
}

/// Whether a probe is that of a program that printed something.
pub open spec fn probed(
    probe: Option<CopilotProbe>,
    program: Seq<char>,
    output: Option<ProbeOutput>,
) -> bool {
    &&& probe matches Some(p)
    &&& p.program@ == program
    &&& p.version_ok == (output matches Some(o) && o.success)
    &&& match (p.version, output) {
        (Some(v), Some(o)) => version_of(crate::strings::lossy_utf8(o.stdout@)) == Some(v@),
        (None, Some(o)) => version_of(crate::strings::lossy_utf8(o.stdout@)) is None,
        (version, None) => version is None,
    }
}

fn probe_of(program: String, output: &Option<ProbeOutput>) -> (probe: Option<CopilotProbe>)
    ensures
        probed(probe, program@, *output),
{
    match output {
        Some(o) => {
            let text = text_of_bytes(&o.stdout);
            Some(
                CopilotProbe {
                    program,
                    version: version_line(text.as_str()),
                    version_ok: o.success,
                },
            )
        },
        None => Some(CopilotProbe { program, version: None, version_ok: false }),
    }
}

/// The Copilot program, by what was printed by `copilot`, `copilot.exe` and the one that npm keeps,
/// each where it could be started. One that starts counts, whatever it prints.
pub fn copilot_probe(
    copilot: &Option<ProbeOutput>,
    copilot_exe: &Option<ProbeOutput>,
    npm: &Option<NpmCopilot>,
) -> (probe: Option<CopilotProbe>)
    ensures
        if copilot is Some {
            probed(probe, "copilot"@, *copilot)
        } else if copilot_exe is Some {
            probed(probe, "copilot.exe"@, *copilot_exe)
        } else {
            match *npm {
                Some(found) if found.exists => probed(
                    probe,
                    npm_program(found.root_stdout@),
                    found.output,
                ),
                _ => probe is None,
            }
        },
{
    if copilot.is_some() {
        return probe_of("copilot".to_owned(), copilot);
    }
    if copilot_exe.is_some() {
        return probe_of("copilot.exe".to_owned(), copilot_exe);
    }
    match npm {
        Some(found) => {
            if found.exists {
                probe_of(npm_copilot_path(&found.root_stdout), &found.output)
            } else {
                None
            }
        },
        None => None,
    }
}

/// What the user is told once a session and its worktree are gone.
pub open spec fn deletion_message(
    branch: Seq<char>,
    branch_removed: bool,
    branch_notice: Option<Seq<char>>,
    unregistered: Result<(), Seq<Seq<char>>>,
) -> Seq<Seq<char>> {
    seq!["Session and worktree deleted"@] + (match branch_notice {
        Some(notice) => seq![notice],
        None => if branch_removed {
            seq![super::worktree::quoted("Branch '"@, branch, "' deleted"@)]
        } else {
            Seq::empty()
        },
    }) + (match unregistered {
        Ok(_) => Seq::empty(),
        Err(failure) => seq![
            "Registry cleanup will be pruned automatically on next load: "@
                + super::worktree::shown_message(failure),
        ],
    })
}

/// How deleting a session together with its worktree ends. `removed` is what removing the worktree
/// did; after that the session's directory is deleted; and last the worktree is taken out of the
/// registry, where a failure does no harm.
pub fn delete_managed_session(
    session_dir: &str,
    entry: &ManagedWorktree,
    removed: Result<RemovalOutcome, Failure>,
    deleted: Result<(), Failure>,
    unregistered: Result<(), Failure>,
) -> (r: Result<String, Failure>)
    ensures
        match removed {
            Err(failure) => r matches Err(f) && f@ == failure@,
            Ok(outcome) => match deleted {
                Err(failure) => r matches Err(f) && f@ == seq![
                    "Failed to delete "@ + session_dir@,
                ] + failure@,
                Ok(_) => r matches Ok(message) && message@ == crate::strings::joined_texts(
                    deletion_message(
                        entry.branch@,
                        outcome.branch_removed,
                        crate::session::process::text_view(outcome.branch_notice),
                        super::worktree::done_outcome(unregistered),
                    ),
                    ". "@,
                ),
            },
        },
{
    let outcome = match removed {
        Ok(outcome) => outcome,
        Err(failure) => return Err(failure),
    };
    if let Err(failure) = deleted {
        return Err(failure.context(option_with("Failed to delete ", session_dir)));
    }
    let ghost notice = crate::session::process::text_view(outcome.branch_notice);
    let mut messages: Vec<String> = Vec::new();
    push_argument(&mut messages, "Session and worktree deleted".to_owned());
    match outcome.branch_notice {
        Some(text) => push_argument(&mut messages, text),
        None => {
            if outcome.branch_removed {
                push_argument(
                    &mut messages,
                    quote("Branch '", entry.branch.as_str(), "' deleted"),
                );
            }
        },
    }
    if let Err(failure) = &unregistered {
        let shown = failure.shown();
        push_argument(
            &mut messages,
            option_with(
                "Registry cleanup will be pruned automatically on next load: ",
                shown.as_str(),
            ),
        );
    }
    proof {
        assert(crate::strings::text_views(messages@) =~= deletion_message(
            entry.branch@,
            outcome.branch_removed,
            notice,
            super::worktree::done_outcome(unregistered),
        ));
    }
    Ok(join_texts(&messages, ". "))
}

/// What is shown before a session starts in a worktree of its own.
pub fn worktree_announcement(branch: &str, path: &str) -> (text: String)
    ensures
        text@ == super::worktree::quoted("Starting isolated session on '"@, branch@, "' in "@)
            + path@ + "..."@,
{
    let mut text = quote("Starting isolated session on '", branch, "' in ");
    append_text(&mut text, path);
    append_text(&mut text, "...");
    text
}

/// How a session in a worktree of its own is started in the foreground. The worktree carries the
/// project's settings.
pub fn start_worktree_session(
    probe: &Option<CopilotProbe>,
    worktree: &str,
    config: &UserConfig,
    project: Option<ProjectSettings>,
) -> (r: Result<Launch, String>)
    ensures
        match *probe {
            Some(p) => {
                &&& r matches Ok(launch)
                &&& launch.program@ == p.program@
                &&& crate::strings::text_views(launch.args@) == creation_arguments(
                    *config,
                    policy_for(*config, project),
                )
                &&& launch.directory matches Some(d) && d@ == worktree@
            },
            None => r matches Err(message) && message@ == copilot_missing(),
        },
{
    start_new_session(probe, worktree, true, config, project)
}

/// The failure of a launch in a worktree that was made for it, which is unmade then. `launch` is why
/// the launch failed, and `rollback` how unmaking the worktree ended.
pub fn failed_worktree_launch(launch: Failure, rollback: &Result<(), Failure>) -> (failure: Failure)
    ensures
        failure@ == (match *rollback {
            Ok(_) => seq!["Failed to launch copilot; worktree creation was rolled back"@]
                + launch@,
            Err(cause) => seq![
                "Failed to launch copilot, and worktree rollback also failed: "@
                    + super::worktree::shown_message(cause@),
            ] + launch@,
        }),
{
    match rollback {
        Ok(_) => launch.context(
            "Failed to launch copilot; worktree creation was rolled back".to_owned(),
        ),
        Err(cause) => {
            let shown = cause.shown();
            launch.context(
                option_with(
                    "Failed to launch copilot, and worktree rollback also failed: ",
                    shown.as_str(),
                ),
            )
        },
    }
}

/// Resuming a session leaves its model and its effort alone: none of the arguments sets either.
pub proof fn law_resuming_keeps_model_and_effort(session_id: Seq<char>, policy: LaunchPolicy)
    ensures
        forall|i: int|
            0 <= i < resume_arguments(session_id, policy).len() ==> {
                &&& !crate::strings::has_prefix(
                    #[trigger] resume_arguments(session_id, policy)[i],
                    "--model="@,
                )
                &&& !crate::strings::has_prefix(
                    resume_arguments(session_id, policy)[i],
                    "--reasoning-effort="@,
                )
            },
{
    reveal_strlit("--model=");
    reveal_strlit("--reasoning-effort=");
    reveal_strlit("--resume=");
    reveal_strlit("--yolo");
    reveal_strlit("--max-autopilot-continues=");
    let args = resume_arguments(session_id, policy);
    assert forall|i: int| 0 <= i < args.len() implies !crate::strings::has_prefix(
        #[trigger] args[i],
        "--model="@,
    ) && !crate::strings::has_prefix(args[i], "--reasoning-effort="@) by {
        let arg = args[i];
        assert(arg[2] == 'r' || arg[2] == 'y' || (arg[2] == 'm' && arg[3] == 'a'));
        assert(arg[2] == 'r' ==> arg[4] == 's');
        if crate::strings::has_prefix(arg, "--model="@) {
            assert(arg.take(8)[2] == 'm' && arg.take(8)[3] == 'o');
        }
        if crate::strings::has_prefix(arg, "--reasoning-effort="@) {
            assert(arg.take(19)[2] == 'r' && arg.take(19)[4] == 'a');
        }
    }
}

/// What the arguments of every launch begin with, be the session new or resumed: the permission to do
/// without asking, and the limit, are given in both.
pub proof fn law_runtime_arguments_reach_both(
    session_id: Seq<char>,
    config: UserConfig,
    policy: LaunchPolicy,
    argument: Seq<char>,
)
    requires
        runtime_arguments(policy).contains(argument),
    ensures
        resume_arguments(session_id, policy).contains(argument),
        new_arguments(session_id, config, policy).contains(argument),
{
    let i = choose|i: int|
        0 <= i < runtime_arguments(policy).len() && runtime_arguments(policy)[i] == argument;
    assert(resume_arguments(session_id, policy)[i + 1] == argument);
    assert(new_arguments(session_id, config, policy)[i + 1] == argument);
}

/// Where the project says no, no launch skips the permission prompts, whatever the user set.
pub proof fn law_project_can_hold_the_prompts(config: UserConfig, project: ProjectSettings)
    requires
        project.yolo == Some(false),
    ensures
        !policy_for(config, Some(project)).yolo,
{
}

proof fn lemma_without_controls(s: Seq<char>)
    ensures
        forall|i: int|
            0 <= i < without_controls(s).len() ==> !crate::strings::control(
                #[trigger] without_controls(s)[i],
            ),
    decreases s.len(),
{
    if s.len() > 0 {
        let before = without_controls(s.drop_last());
        lemma_without_controls(s.drop_last());
        assert forall|i: int| 0 <= i < without_controls(s).len() implies !crate::strings::control(
            #[trigger] without_controls(s)[i],
        ) by {
            if i < before.len() {
                assert(without_controls(s)[i] == before[i]);
            }
        }
    }
}

proof fn lemma_without_dots_prefix(s: Seq<char>)
    ensures
        without_dots(s).len() <= s.len(),
        without_dots(s) == s.take(without_dots(s).len() as int),
    decreases s.len(),
{
    if s.len() > 0 && s.last() == '.' {
        lemma_without_dots_prefix(s.drop_last());
        let n = without_dots(s).len() as int;
        assert(s.drop_last().take(n) == s.take(n));
    } else {
        assert(s.take(s.len() as int) == s);
    }
}

/// A version never carries a control character into what is shown, and is never longer than 80
/// characters.
pub proof fn law_version_is_clean_and_short(banner: Seq<char>)
    ensures
        version_of(banner) matches Some(version) ==> version.len() <= 80 && forall|i: int|
            0 <= i < version.len() ==> !crate::strings::control(#[trigger] version[i]),
{
    if let Some(line) = first_filled(crate::strings::lines(banner), 0) {
        let clean = without_controls(line);
        let cut = if clean.len() > 80 {
            clean.take(80)
        } else {
            clean
        };
        lemma_without_controls(line);
        lemma_without_dots_prefix(cut);
        let dotless = without_dots(cut);
        crate::strings::lemma_trim_inside(dotless);
        let version = crate::strings::trim(dotless);
        let from = choose|from: int|
            0 <= from <= dotless.len() && from + version.len() <= dotless.len() && version
                == #[trigger] dotless.subrange(from, from + version.len());
        assert forall|i: int| 0 <= i < version.len() implies !crate::strings::control(
            #[trigger] version[i],
        ) by {
            assert(version[i] == dotless[from + i]);
            assert(dotless[from + i] == cut[from + i]);
            assert(cut[from + i] == clean[from + i]);
        }
    }
}

proof fn lemma_titled_has_key(lines: Seq<Seq<char>>, title: Seq<char>)
    ensures
        has_key(lines, "id:"@) ==> has_key(titled_lines(lines, title), "name:"@),
        !has_key(lines, "id:"@) ==> titled_lines(lines, title) == lines,
    decreases lines.len(),
{
    reveal_strlit("name:");
    reveal_strlit("name: ");
    if lines.len() > 0 {
        let shorter = lines.drop_last();
        lemma_titled_has_key(shorter, title);
        let whole = titled_lines(lines, title);
        let before = titled_lines(shorter, title);
        if crate::strings::has_prefix(lines.last(), "id:"@) {
            let named = "name: "@ + title;
            assert(named.take(5) =~= "name:"@);
            assert(whole[whole.len() - 1] == named);
            assert(has_key(lines, "id:"@)) by {
                assert(crate::strings::has_prefix(lines[lines.len() - 1], "id:"@));
            }
        } else {
            assert(whole =~= before.push(lines.last()));
            if has_key(lines, "id:"@) {
                let i = choose|i: int|
                    0 <= i < lines.len() && crate::strings::has_prefix(
                        #[trigger] lines[i],
                        "id:"@,
                    );
                assert(shorter[i] == lines[i]);
                assert(has_key(shorter, "id:"@));
                let j = choose|j: int|
                    0 <= j < before.len() && crate::strings::has_prefix(
                        #[trigger] before[j],
                        "name:"@,
                    );
                assert(whole[j] == before[j]);
            } else {
                assert(!has_key(shorter, "id:"@)) by {
                    if has_key(shorter, "id:"@) {
                        let i = choose|i: int|
                            0 <= i < shorter.len() && crate::strings::has_prefix(
                                #[trigger] shorter[i],
                                "id:"@,
                            );
                        assert(lines[i] == shorter[i]);
                    }
                }
                assert(whole =~= lines);
            }
        }
    } else {
        assert(titled_lines(lines, title) =~= lines);
    }
}

proof fn lemma_retitled_titled(lines: Seq<Seq<char>>, first: Seq<char>, second: Seq<char>)
    requires
        !has_key(lines, "name:"@),
    ensures
        titled_lines(lines, first).map_values(|line: Seq<char>| retitled(line, true, second))
            == titled_lines(lines, second),
    decreases lines.len(),
{
    reveal_strlit("name:");
    reveal_strlit("name: ");
    if lines.len() > 0 {
        let shorter = lines.drop_last();
        assert(!has_key(shorter, "name:"@)) by {
            if has_key(shorter, "name:"@) {
                let i = choose|i: int|
                    0 <= i < shorter.len() && crate::strings::has_prefix(
                        #[trigger] shorter[i],
                        "name:"@,
                    );
                assert(lines[i] == shorter[i]);
            }
        }
        lemma_retitled_titled(shorter, first, second);
        assert(!crate::strings::has_prefix(lines[lines.len() - 1], "name:"@));
        let change = |line: Seq<char>| retitled(line, true, second);
        let named = "name: "@ + first;
        assert(named.take(5) =~= "name:"@);
        let a = titled_lines(shorter, first);
        assert(titled_lines(lines, first).map_values(change) =~= titled_lines(lines, second)) by {
            assert(a.map_values(change) == titled_lines(shorter, second));
            assert(a.push(lines.last()).map_values(change) =~= a.map_values(change).push(
                lines.last(),
            ));
            assert(a.push(lines.last()).push(named).map_values(change) =~= a.map_values(
                change,
            ).push(lines.last()).push("name: "@ + second));
        }
    } else {
        assert(titled_lines(lines, first).map_values(
            |line: Seq<char>| retitled(line, true, second),
        ) =~= titled_lines(lines, second));
    }
}

/// Renaming twice is renaming once, to the last name: nothing of the name between stays.
pub proof fn law_last_name_wins(lines: Seq<Seq<char>>, first: Seq<char>, second: Seq<char>)
    ensures
        renamed_lines(renamed_lines(lines, first), second) == renamed_lines(lines, second),
{
    reveal_strlit("name:");
    reveal_strlit("name: ");
    reveal_strlit("summary:");
    reveal_strlit("summary: ");
    let named = "name: "@ + first;
    let summed = "summary: "@ + first;
    assert(named.take(5) =~= "name:"@);
    assert(summed.take(8) =~= "summary:"@);
    assert(!crate::strings::has_prefix(summed, "name:"@)) by {
        assert(summed.take(5)[0] == 's');
    }
    let once = renamed_lines(lines, first);
    if has_key(lines, "name:"@) || has_key(lines, "summary:"@) {
        let has_name = has_key(lines, "name:"@);
        if has_name {
            let i = choose|i: int|
                0 <= i < lines.len() && crate::strings::has_prefix(#[trigger] lines[i], "name:"@);
            assert(crate::strings::has_prefix(once[i], "name:"@));
        } else {
            let i = choose|i: int|
                0 <= i < lines.len() && crate::strings::has_prefix(
                    #[trigger] lines[i],
                    "summary:"@,
                );
            assert(!crate::strings::has_prefix(lines[i], "name:"@));
            assert(crate::strings::has_prefix(once[i], "summary:"@));
            assert(!has_key(once, "name:"@)) by {
                if has_key(once, "name:"@) {
                    let j = choose|j: int|
                        0 <= j < once.len() && crate::strings::has_prefix(
                            #[trigger] once[j],
                            "name:"@,
                        );
                    assert(!crate::strings::has_prefix(lines[j], "name:"@));
                }
            }
        }
        assert(has_key(once, "name:"@) == has_name);
        assert forall|i: int| 0 <= i < lines.len() implies #[trigger] retitled(
            once[i],
            has_name,
            second,
        ) == retitled(lines[i], has_name, second) by {
            assert(once[i] == retitled(lines[i], has_name, first));
        }
        assert(renamed_lines(once, second) =~= renamed_lines(lines, second));
    } else {
        lemma_titled_has_key(lines, first);
        if has_key(lines, "id:"@) {
            lemma_retitled_titled(lines, first, second);
            assert(has_key(once, "name:"@));
            assert(renamed_lines(once, second) =~= once.map_values(
                |line: Seq<char>| retitled(line, true, second),
            ));
        }
    }
}

/// Whether a line of a description is the one that a name or a summary stands in.
pub open spec fn begins(line: Seq<char>, key: Seq<char>) -> bool {
    line.len() >= key.len() && line.take(key.len() as int) == key
}

/// Renaming puts the whole new name behind `name: ` in every line that held a name, and leaves all
/// other lines as they were. Where no line held a name, it does the same with the lines that held a
/// summary.
pub proof fn law_the_whole_name_is_written(lines: Seq<Seq<char>>, title: Seq<char>, at: int)
    requires
        0 <= at < lines.len(),
        exists|i: int|
            0 <= i < lines.len() && (begins(#[trigger] lines[i], "name:"@) || begins(
                lines[i],
                "summary:"@,
            )),
    ensures
        ({
            let named = exists|i: int| 0 <= i < lines.len() && begins(#[trigger] lines[i], "name:"@);
            let after = renamed_lines(lines, title);
            &&& after.len() == lines.len()
            &&& named && begins(lines[at], "name:"@) ==> after[at].take(6) == "name: "@
                && after[at].skip(6) == title
            &&& !named && begins(lines[at], "summary:"@) ==> after[at].take(9) == "summary: "@
                && after[at].skip(9) == title
            &&& !begins(lines[at], "name:"@) && (named || !begins(lines[at], "summary:"@))
                ==> after[at] == lines[at]
        }),
{
    reveal_strlit("name: ");
    reveal_strlit("summary: ");
    let i = choose|i: int|
        0 <= i < lines.len() && (begins(#[trigger] lines[i], "name:"@) || begins(
            lines[i],
            "summary:"@,
        ));
    assert(crate::strings::has_prefix(lines[i], "name:"@) || crate::strings::has_prefix(
        lines[i],
        "summary:"@,
    ));
    assert(("name: "@ + title).take(6) =~= "name: "@);
    assert(("name: "@ + title).skip(6) =~= title);
    assert(("summary: "@ + title).take(9) =~= "summary: "@);
    assert(("summary: "@ + title).skip(9) =~= title);
    if exists|k: int| 0 <= k < lines.len() && begins(#[trigger] lines[k], "name:"@) {
        let k = choose|k: int| 0 <= k < lines.len() && begins(#[trigger] lines[k], "name:"@);
        assert(crate::strings::has_prefix(lines[k], "name:"@));
    }
}

/// Where no line held a name or a summary, the lines stay as they were, and behind every line with an
/// id comes one more: `name: ` and the whole new name.
pub proof fn law_a_name_is_added_behind_the_id(lines: Seq<Seq<char>>, line: Seq<char>, title: Seq<char>)
    requires
        forall|i: int|
            0 <= i < lines.len() ==> !begins(#[trigger] lines[i], "name:"@) && !begins(
                lines[i],
                "summary:"@,
            ),
        !begins(line, "name:"@),
        !begins(line, "summary:"@),
    ensures
        renamed_lines(Seq::empty(), title) == Seq::<Seq<char>>::empty(),
        renamed_lines(lines.push(line), title) == renamed_lines(lines, title) + if begins(
            line,
            "id:"@,
        ) {
            seq![line, "name: "@ + title]
        } else {
            seq![line]
        },
{
    assert(!has_key(lines, "name:"@) && !has_key(lines, "summary:"@));
    let longer = lines.push(line);
    assert(!has_key(longer, "name:"@) && !has_key(longer, "summary:"@)) by {
        assert forall|i: int| 0 <= i < longer.len() implies !crate::strings::has_prefix(
            #[trigger] longer[i],
            "name:"@,
        ) && !crate::strings::has_prefix(longer[i], "summary:"@) by {
            if i < lines.len() {
                assert(longer[i] == lines[i]);
                assert(!begins(lines[i], "name:"@));
            }
        }
    }
    assert(longer.drop_last() =~= lines);
    assert(renamed_lines(longer, title) =~= renamed_lines(lines, title) + if begins(line, "id:"@) {
        seq![line, "name: "@ + title]
    } else {
        seq![line]
    });
}

/// What a renamed description says line by line: reading it gives the renamed lines, where the new
/// name is one line.
pub proof fn law_renamed_descriptions_read_back(content: Seq<char>, title: Seq<char>)
    requires
        crate::strings::plain_line(title),
        crate::strings::lines(content).len() > 0,
        forall|i: int|
            0 <= i < crate::strings::lines(content).len() ==> crate::strings::plain_line(
                #[trigger] crate::strings::lines(content)[i],
            ),
    ensures
        crate::strings::lines(renamed_text(content, title)) == renamed_lines(
            crate::strings::lines(content),
            title,
        ),
{
    let before = crate::strings::lines(content);
    let after = renamed_lines(before, title);
    reveal_strlit("name: ");
    reveal_strlit("summary: ");
    lemma_titled_plain(before, title);
    assert forall|i: int| 0 <= i < after.len() implies crate::strings::plain_line(
        #[trigger] after[i],
    ) by {
        if has_key(before, "name:"@) || has_key(before, "summary:"@) {
            assert(crate::strings::plain_line(before[i]));
            lemma_plain_after("name: "@, title);
            lemma_plain_after("summary: "@, title);
        }
    }
    crate::strings::law_written_lines_read_back(after);
}

proof fn lemma_plain_after(key: Seq<char>, title: Seq<char>)
    requires
        crate::strings::plain_line(title),
        crate::strings::plain_line(key),
    ensures
        crate::strings::plain_line(key + title),
{
    let whole = key + title;
    assert forall|i: int| 0 <= i < whole.len() implies #[trigger] whole[i] != '\n' by {
        if i < key.len() {
            assert(whole[i] == key[i]);
        } else {
            assert(whole[i] == title[i - key.len()]);
        }
    }
    if title.len() == 0 {
        assert(whole =~= key);
    }
}

proof fn lemma_titled_plain(lines: Seq<Seq<char>>, title: Seq<char>)
    requires
        crate::strings::plain_line(title),
        forall|i: int| 0 <= i < lines.len() ==> crate::strings::plain_line(#[trigger] lines[i]),
    ensures
        titled_lines(lines, title).len() >= lines.len(),
        forall|i: int|
            0 <= i < titled_lines(lines, title).len() ==> crate::strings::plain_line(
                #[trigger] titled_lines(lines, title)[i],
            ),
    decreases lines.len(),
{
    reveal_strlit("name: ");
    if lines.len() > 0 {
        let shorter = lines.drop_last();
        assert forall|i: int| 0 <= i < shorter.len() implies crate::strings::plain_line(
            #[trigger] shorter[i],
        ) by {
            assert(crate::strings::plain_line(lines[i]));
        }
        lemma_titled_plain(shorter, title);
        lemma_plain_after("name: "@, title);
        let whole = titled_lines(lines, title);
        let before = titled_lines(shorter, title);
        assert(crate::strings::plain_line(lines[lines.len() - 1]));
        assert forall|i: int| 0 <= i < whole.len() implies crate::strings::plain_line(
            #[trigger] whole[i],
        ) by {
            if i < before.len() {
                assert(whole[i] == before[i]);
            } else if i == before.len() {
                assert(whole[i] == lines.last());
            }
        }
    }
}

/// What a project sets comes before what the user set; what it leaves open stays as the user set it.
pub proof fn law_project_settings_come_first(config: UserConfig, project: ProjectSettings)
    ensures
        policy_for(config, None).yolo == config.yolo,
        policy_for(config, None).max_autopilot_continues == config.max_autopilot_continues,
        match project.yolo {
            Some(yolo) => policy_for(config, Some(project)).yolo == yolo,
            None => policy_for(config, Some(project)).yolo == config.yolo,
        },
        match project.max_autopilot_continues {
            Some(limit) => policy_for(config, Some(project)).max_autopilot_continues == Some(limit),
            None => policy_for(config, Some(project)).max_autopilot_continues
                == config.max_autopilot_continues,
        },
{
}

/// A resumed session is named first, and then come the permissions and the limit of the policy, each
/// exactly where the policy has it.
pub proof fn law_resuming_names_the_session_and_the_policy(session_id: Seq<char>, policy: LaunchPolicy)
    ensures
        ({
            let args = resume_arguments(session_id, policy);
            let granted: int = if policy.yolo {
                1
            } else {
                0
            };
            &&& args[0].take(9) == "--resume="@ && args[0].skip(9) == session_id
            &&& args.len() == 1 + granted + (if policy.max_autopilot_continues is Some {
                1int
            } else {
                0int
            })
            &&& policy.yolo ==> args[1] == "--yolo"@
            &&& policy.max_autopilot_continues matches Some(limit) ==> args[1 + granted].take(26)
                == "--max-autopilot-continues="@ && args[1 + granted].skip(26)
                == crate::strings::decimal(limit as nat)
        }),
{
    reveal_strlit("--resume=");
    reveal_strlit("--max-autopilot-continues=");
    let args = resume_arguments(session_id, policy);
    assert(("--resume="@ + session_id).take(9) =~= "--resume="@);
    assert(("--resume="@ + session_id).skip(9) =~= session_id);
    if let Some(limit) = policy.max_autopilot_continues {
        let text = crate::strings::decimal(limit as nat);
        assert(("--max-autopilot-continues="@ + text).take(26) =~= "--max-autopilot-continues="@);
        assert(("--max-autopilot-continues="@ + text).skip(26) =~= text);
    }
}

/// A new session is named first, then come the arguments that a resumed one gets too, then the model
/// and the effort, each exactly where the user set it.
pub proof fn law_a_new_session_has_its_model_and_effort(
    session_id: Seq<char>,
    config: UserConfig,
    policy: LaunchPolicy,
)
    ensures
        ({
            let args = new_arguments(session_id, config, policy);
            let shared = resume_arguments(session_id, policy);
            let n = shared.len() as int;
            let chosen: int = if config.model is Some {
                1
            } else {
                0
            };
            &&& args[0].take(13) == "--session-id="@ && args[0].skip(13) == session_id
            &&& args.subrange(1, n) == shared.skip(1)
            &&& args.len() == n + chosen + (if config.reasoning_effort is Some {
                1int
            } else {
                0int
            })
            &&& config.model matches Some(model) ==> args[n].take(8) == "--model="@ && args[n].skip(8)
                == model@
            &&& config.reasoning_effort matches Some(effort) ==> args[n + chosen].take(19)
                == "--reasoning-effort="@ && args[n + chosen].skip(19) == effort@
        }),
{
    reveal_strlit("--session-id=");
    reveal_strlit("--model=");
    reveal_strlit("--reasoning-effort=");
    let args = new_arguments(session_id, config, policy);
    let shared = resume_arguments(session_id, policy);
    let n = shared.len() as int;
    assert(("--session-id="@ + session_id).take(13) =~= "--session-id="@);
    assert(("--session-id="@ + session_id).skip(13) =~= session_id);
    assert(args.subrange(1, n) =~= shared.skip(1));
    if let Some(model) = config.model {
        assert(("--model="@ + model@).take(8) =~= "--model="@);
        assert(("--model="@ + model@).skip(8) =~= model@);
    }
    if let Some(effort) = config.reasoning_effort {
        assert(("--reasoning-effort="@ + effort@).take(19) =~= "--reasoning-effort="@);
        assert(("--reasoning-effort="@ + effort@).skip(19) =~= effort@);
    }
}

/// A version that is clean and short is shown as it is, with a full stop behind it or without.
pub proof fn law_plain_versions_are_kept(version: Seq<char>)
    requires
        crate::strings::plain_line(version),
        0 < version.len() < 80,
        version.last() != '.',
        crate::strings::trim(version) == version,
        crate::strings::trim(version.push('.')) == version.push('.'),
        forall|i: int| 0 <= i < version.len() ==> !crate::strings::control(#[trigger] version[i]),
    ensures
        version_of(version.push('\n')) == Some(version),
        version_of(version.push('.').push('\n')) == Some(version),
{
    reveal_strlit("\n");
    let dotted = version.push('.');
    assert forall|i: int| 0 <= i < dotted.len() implies #[trigger] dotted[i] != '\n' by {
        if i < version.len() {
            assert(version[i] != '\n');
        }
    }
    crate::strings::law_written_lines_read_back(seq![version]);
    crate::strings::law_written_lines_read_back(seq![dotted]);
    assert(seq![version].drop_last() =~= Seq::<Seq<char>>::empty());
    assert(seq![dotted].drop_last() =~= Seq::<Seq<char>>::empty());
    assert(crate::strings::joined_texts(seq![version], "\n"@) + "\n"@ =~= version.push('\n'));
    assert(crate::strings::joined_texts(seq![dotted], "\n"@) + "\n"@ =~= dotted.push('\n'));
    lemma_nothing_to_clean(version);
    assert(!crate::strings::control('.'));
    assert forall|i: int| 0 <= i < dotted.len() implies !crate::strings::control(#[trigger] dotted[i]) by {
        if i < version.len() {
            assert(!crate::strings::control(version[i]));
        }
    }
    lemma_nothing_to_clean(dotted);
    assert(dotted.drop_last() =~= version);
    reveal_with_fuel(without_dots, 2);
}

proof fn lemma_nothing_to_clean(s: Seq<char>)
    requires
        forall|i: int| 0 <= i < s.len() ==> !crate::strings::control(#[trigger] s[i]),
    ensures
        without_controls(s) == s,
    decreases s.len(),
{
    if s.len() > 0 {
        assert(!crate::strings::control(s[s.len() - 1]));
        assert forall|i: int| 0 <= i < s.drop_last().len() implies !crate::strings::control(
            #[trigger] s.drop_last()[i],
        ) by {
            assert(!crate::strings::control(s[i]));
        }
        lemma_nothing_to_clean(s.drop_last());
        assert(s.drop_last().push(s.last()) =~= s);
    } else {
        assert(s =~= Seq::<char>::empty());
    }
}

/// What is said of a deleted session: that it is gone, then what became of its branch, a notice before
/// the good news, then that the registry was not cleaned, where it was not.
pub proof fn law_deletions_are_reported_in_order(
    branch: Seq<char>,
    removed: bool,
    notice: Option<Seq<char>>,
    unregistered: Result<(), Seq<Seq<char>>>,
)
    ensures
        ({
            let said = deletion_message(branch, removed, notice, unregistered);
            let spoken: int = if notice is Some || removed {
                1
            } else {
                0
            };
            &&& said[0] == "Session and worktree deleted"@
            &&& notice matches Some(words) ==> said[1] == words
            &&& notice is None && removed ==> said[1].take(8) == "Branch '"@ && said[1].subrange(
                8,
                (8 + branch.len()) as int,
            ) == branch && said[1].skip((8 + branch.len()) as int) == "' deleted"@
            &&& said.len() == 1 + spoken + (if unregistered is Err {
                1int
            } else {
                0int
            })
            &&& unregistered matches Err(failure) ==> failure.len() > 0 ==> said.last()
                == "Registry cleanup will be pruned automatically on next load: "@ + failure[0]
        }),
{
    reveal_strlit("Branch '");
    reveal_strlit("' deleted");
    let whole = super::worktree::quoted("Branch '"@, branch, "' deleted"@);
    assert(whole.take(8) =~= "Branch '"@);
    assert(whole.subrange(8, (8 + branch.len()) as int) =~= branch);
    assert(whole.skip((8 + branch.len()) as int) =~= "' deleted"@);
}

/// The program that npm installed lies below the root that npm told, whatever space came with it.
pub proof fn law_npm_programs_lie_below_the_root(root: Seq<u8>)
    ensures
        ({
            let program = npm_program(root);
            let n = program.len() - 28;
            &&& n >= 0
            &&& program.take(n) == crate::strings::trim(crate::strings::lossy_utf8(root))
            &&& program.skip(n) == "/@github/copilot/bin/copilot"@
        }),
{
    reveal_strlit("/@github/copilot/bin/copilot");
    let program = npm_program(root);
    let n = program.len() - 28;
    assert(program.take(n) =~= crate::strings::trim(crate::strings::lossy_utf8(root)));
    assert(program.skip(n) =~= "/@github/copilot/bin/copilot"@);
}

/// The first line that holds more than space is the one that counts, without the space around it.
pub proof fn law_blank_lines_are_passed_over(lines: Seq<Seq<char>>, from: int, at: int)
    requires
        0 <= from <= at < lines.len(),
        crate::strings::trim(lines[at]).len() > 0,
        forall|i: int| from <= i < at ==> crate::strings::trim(#[trigger] lines[i]).len() == 0,
    ensures
        first_filled(lines, from) == Some(crate::strings::trim(lines[at])),
    decreases at - from,
{
    if from < at {
        assert(crate::strings::trim(lines[from]).len() == 0);
        law_blank_lines_are_passed_over(lines, from + 1, at);
    }
}

} // verus!
