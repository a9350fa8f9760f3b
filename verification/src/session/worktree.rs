//! Worktrees that are made for sessions: where they lie, what they are called, and what Git said.

use crate::hashing::{hex_text, sha256_digest};
use crate::paths::{is_absolute, join_path, path_file_name};
use crate::strings::{
    append_text, chars_of, is_ascii_alphanumeric, lines_of, same_text, strip_text_prefix,
    text_between, text_of, text_of_bytes, to_ascii_lower, trimmed,
};
use vstd::prelude::*;

verus! {

/// Why something failed: the message that is shown, and behind it the ones it came from.
#[derive(Debug)]
pub struct Failure {
    pub messages: Vec<String>,
}

impl View for Failure {
    type V = Seq<Seq<char>>;

    open spec fn view(&self) -> Seq<Seq<char>> {
        crate::strings::text_views(self.messages@)
    }
}

impl Clone for Failure {
    fn clone(&self) -> (copy: Failure)
        ensures
            copy@ == self@,
    {
        let mut messages: Vec<String> = Vec::new();
        let mut i: usize = 0;
        while i < self.messages.len()
            invariant
                i <= self.messages@.len(),
                messages@.len() == i,
                forall|j: int| 0 <= j < i ==> messages@[j]@ == (#[trigger] self.messages@[j])@,
            decreases self.messages@.len() - i,
        {
            messages.push(self.messages[i].clone());
            i = i + 1;
        }
        let copy = Failure { messages };
        assert(copy@ =~= self@);
        copy
    }
}

impl Failure {
    /// A failure with one message.
    pub fn of(message: String) -> (failure: Failure)
        ensures
            failure@ == seq![message@],
    {
        let mut messages: Vec<String> = Vec::new();
        messages.push(message);
        let failure = Failure { messages };
        assert(failure@ =~= seq![message@]);
        failure
    }

    /// A failure with a message put in front.
    pub fn context(self, message: String) -> (failure: Failure)
        ensures
            failure@ == seq![message@] + self@,
    {
        let mut messages = self.messages;
        let ghost before = messages@;
        messages.insert(0, message);
        let failure = Failure { messages };
        assert(failure@ =~= seq![message@] + crate::strings::text_views(before));
        failure
    }

    /// The message that is shown.
    pub fn shown(&self) -> (message: String)
        ensures
            message@ == shown_message(self@),
    {
        if self.messages.len() == 0 {
            String::new()
        } else {
            self.messages[0].clone()
        }
    }
}

/// The message that is shown of a failure.
pub open spec fn shown_message(messages: Seq<Seq<char>>) -> Seq<char> {
    if messages.len() == 0 {
        Seq::empty()
    } else {
        messages[0]
    }
}

/// A result by its views.
pub open spec fn text_outcome(r: Result<String, Failure>) -> Result<Seq<char>, Seq<Seq<char>>> {
    match r {
        Ok(text) => Ok(text@),
        Err(failure) => Err(failure@),
    }
}

/// A result that says no more than whether it came about.
pub open spec fn done_outcome(r: Result<(), Failure>) -> Result<(), Seq<Seq<char>>> {
    match r {
        Ok(_) => Ok(()),
        Err(failure) => Err(failure@),
    }
}

/// A text between two others.
pub open spec fn quoted(before: Seq<char>, text: Seq<char>, after: Seq<char>) -> Seq<char> {
    before + text + after
}

/// A text between two others.
pub fn quote(before: &str, text: &str, after: &str) -> (r: String)
    ensures
        r@ == quoted(before@, text@, after@),
{
    let mut r = before.to_owned();
    append_text(&mut r, text);
    append_text(&mut r, after);
    r
}

/// What a run of Git left.
#[derive(Debug)]
pub struct CommandOutput {
    pub success: bool,
    pub code: Option<i32>,
    pub stdout: Vec<u8>,
    pub stderr: Vec<u8>,
}

/// What Git printed, as a text without the white space around it.
pub open spec fn printed(bytes: Seq<u8>) -> Seq<char> {
    crate::strings::trim(crate::strings::lossy_utf8(bytes))
}

/// What Git said went wrong: what it printed as an error, or else what it printed.
pub open spec fn complaint(output: CommandOutput) -> Seq<char> {
    if printed(output.stderr@).len() > 0 {
        printed(output.stderr@)
    } else {
        printed(output.stdout@)
    }
}

/// What Git printed.
pub fn printed_text(bytes: &Vec<u8>) -> (text: String)
    ensures
        text@ == printed(bytes@),
{
    let text = text_of_bytes(bytes);
    trimmed(text.as_str())
}

/// What Git said went wrong.
pub fn command_error(output: &CommandOutput) -> (text: String)
    ensures
        text@ == complaint(*output),
{
    let stderr = printed_text(&output.stderr);
    if stderr.as_str().is_empty() {
        printed_text(&output.stdout)
    } else {
        stderr
    }
}

/// What a run of Git printed, where it succeeded.
pub open spec fn git_text(outcome: Result<CommandOutput, Failure>) -> Result<
    Seq<char>,
    Seq<Seq<char>>,
> {
    match outcome {
        Err(failure) => Err(failure@),
        Ok(output) => if output.success {
            Ok(printed(output.stdout@))
        } else {
            Err(seq![complaint(output)])
        },
    }
}

/// What a run of Git printed, where it succeeded.
pub fn git_stdout(outcome: &Result<CommandOutput, Failure>) -> (r: Result<String, Failure>)
    ensures
        text_outcome(r) == git_text(*outcome),
{
    match outcome {
        Err(failure) => Err(failure.clone()),
        Ok(output) => {
            if output.success {
                Ok(printed_text(&output.stdout))
            } else {
                Err(Failure::of(command_error(output)))
            }
        },
    }
}

/// Whether a run of Git succeeded; where it did not, a message before what it said.
pub open spec fn git_done(outcome: Result<CommandOutput, Failure>, message: Seq<char>) -> Result<
    (),
    Seq<Seq<char>>,
> {
    match outcome {
        Err(failure) => Err(failure@),
        Ok(output) => if output.success {
            Ok(())
        } else {
            Err(seq![message + complaint(output)])
        },
    }
}

/// Whether a run of Git succeeded.
pub fn git_succeeded(outcome: &Result<CommandOutput, Failure>, message: &str) -> (r: Result<
    (),
    Failure,
>)
    ensures
        done_outcome(r) == git_done(*outcome, message@),
{
    match outcome {
        Err(failure) => Err(failure.clone()),
        Ok(output) => {
            if output.success {
                Ok(())
            } else {
                let said = command_error(output);
                let mut text = message.to_owned();
                append_text(&mut text, said.as_str());
                Err(Failure::of(text))
            }
        },
    }
}

/// What the file system said of paths: for each the canonical, or else the absolute, form.
#[derive(Debug)]
pub struct ResolvedPaths {
    pub pairs: Vec<(String, String)>,
    /// Whether the paths follow the rules of Windows.
    pub windows: bool,
}

/// Resolved paths by their views.
pub open spec fn pair_views(pairs: Seq<(String, String)>) -> Seq<(Seq<char>, Seq<char>)> {
    pairs.map_values(|p: (String, String)| (p.0@, p.1@))
}

/// The resolved form of a path among pairs; itself where none says anything of it.
pub open spec fn resolved_among(
    pairs: Seq<(Seq<char>, Seq<char>)>,
    path: Seq<char>,
    from: int,
) -> Seq<char>
    decreases pairs.len() - from,
{
    if from < 0 || from >= pairs.len() {
        path
    } else if pairs[from].0 == path {
        pairs[from].1
    } else {
        resolved_among(pairs, path, from + 1)
    }
}

/// Every character of a text exchanged for another where it is a given one.
pub open spec fn exchanged(text: Seq<char>, old_char: char, new_char: char) -> Seq<char> {
    text.map_values(
        |c: char|
            if c == old_char {
                new_char
            } else {
                c
            },
    )
}

/// The lower-case form of a text.
pub uninterp spec fn lower_text(text: Seq<char>) -> Seq<char>;

/// `str::to_lowercase`: the lower-case form of a text depends on the text alone. Which it is stays
/// unsaid.
#[verifier::external_body]
fn lowered(text: &str) -> (r: String)
    ensures
        r@ == lower_text(text@),
{
    text.to_lowercase()
}

/// A text by which paths are compared: one kind of separator, and on Windows one case.
pub open spec fn key_text(text: Seq<char>, old_char: char, new_char: char, windows: bool) -> Seq<
    char,
> {
    if windows {
        lower_text(exchanged(text, old_char, new_char))
    } else {
        exchanged(text, old_char, new_char)
    }
}

/// The text by which a relative path is compared.
pub open spec fn relative_key(path: Seq<char>, windows: bool) -> Seq<char> {
    key_text(path, '\\', '/', windows)
}

impl ResolvedPaths {
    /// The resolved form of a path.
    pub open spec fn resolved(self, path: Seq<char>) -> Seq<char> {
        resolved_among(pair_views(self.pairs@), path, 0)
    }

    /// The text by which a path is compared.
    pub open spec fn key(self, path: Seq<char>) -> Seq<char> {
        key_text(self.resolved(path), '/', '\\', self.windows)
    }

    /// The resolved form of a path.
    pub fn resolve(&self, path: &str) -> (r: String)
        ensures
            r@ == self.resolved(path@),
    {
        let ghost views = pair_views(self.pairs@);
        let mut i: usize = 0;
        while i < self.pairs.len()
            invariant
                i <= self.pairs@.len(),
                views == pair_views(self.pairs@),
                resolved_among(views, path@, 0) == resolved_among(views, path@, i as int),
            decreases self.pairs@.len() - i,
        {
            assert(views[i as int] == (self.pairs@[i as int].0@, self.pairs@[i as int].1@));
            if same_text(self.pairs[i].0.as_str(), path) {
                return self.pairs[i].1.clone();
            }
            i = i + 1;
        }
        path.to_owned()
    }

    /// The text by which a path is compared.
    pub fn path_key(&self, path: &str) -> (r: String)
        ensures
            r@ == self.key(path@),
    {
        let form = self.resolve(path);
        key_of(form.as_str(), '/', '\\', self.windows)
    }
}

fn key_of(text: &str, old_char: char, new_char: char, windows: bool) -> (r: String)
    ensures
        r@ == key_text(text@, old_char, new_char, windows),
{
    let chars = chars_of(text);
    let mut key: Vec<char> = Vec::new();
    let mut i: usize = 0;
    while i < chars.len()
        invariant
            i <= chars@.len(),
            chars@ == text@,
            key@.len() == i,
            forall|j: int| 0 <= j < i ==> key@[j] == exchanged(text@, old_char, new_char)[j],
        decreases chars@.len() - i,
    {
        if chars[i] == old_char {
            key.push(new_char);
        } else {
            key.push(chars[i]);
        }
        i = i + 1;
    }
    assert(key@ =~= exchanged(text@, old_char, new_char));
    let plain = text_of(&key);
    if windows {
        lowered(plain.as_str())
    } else {
        plain
    }
}

/// The text by which a relative path is compared.
pub fn relative_path_key(path: &str, windows: bool) -> (r: String)
    ensures
        r@ == relative_key(path@, windows),
{
    key_of(path, '\\', '/', windows)
}

/// A canonical path without the marks of the long form of a path on Windows.
pub open spec fn without_long_marks(path: Seq<char>) -> Seq<char> {
    if crate::strings::has_prefix(path, "\\\\?\\UNC\\"@) {
        "\\\\"@ + path.skip(8)
    } else if crate::strings::has_prefix(path, "\\\\?\\"@) {
        path.skip(4)
    } else {
        path
    }
}

/// A canonical path without the marks of the long form of a path on Windows.
pub fn strip_windows_prefix(path: &str) -> (r: String)
    ensures
        r@ == without_long_marks(path@),
{
    proof {
        reveal_strlit("\\\\?\\UNC\\");
        reveal_strlit("\\\\?\\");
    }
    if let Some(rest) = strip_text_prefix(path, "\\\\?\\UNC\\") {
        let mut r = "\\\\".to_owned();
        append_text(&mut r, rest.as_str());
        return r;
    }
    match strip_text_prefix(path, "\\\\?\\") {
        Some(rest) => rest,
        None => path.to_owned(),
    }
}

/// The form in which a path is kept: the canonical one, or the path itself where it is absolute, or
/// else seen from the working directory.
pub fn canonicalize_or_absolute(
    path: &str,
    canonical: &Option<String>,
    working_directory: &Option<String>,
    windows: bool,
) -> (r: String)
    ensures
        r@ == without_long_marks(
            match *canonical {
                Some(c) => c@,
                None => if crate::paths::absolute(path@, windows) {
                    path@
                } else {
                    crate::paths::joined(
                        match *working_directory {
                            Some(d) => d@,
                            None => "."@,
                        },
                        path@,
                        windows,
                    )
                },
            },
        ),
{
    match canonical {
        Some(c) => strip_windows_prefix(c.as_str()),
        None => {
            if is_absolute(path, windows) {
                strip_windows_prefix(path)
            } else {
                let whole = match working_directory {
                    Some(d) => join_path(d.as_str(), path, windows),
                    None => join_path(".", path, windows),
                };
                strip_windows_prefix(whole.as_str())
            }
        },
    }
}

/// A repository: its main worktree, and the directory that all its worktrees share.
#[derive(Debug)]
pub struct Repository {
    pub main_worktree: String,
    pub common_git_dir: String,
}

impl Clone for Repository {
    fn clone(&self) -> (copy: Repository)
        ensures
            copy == *self,
    {
        Repository {
            main_worktree: self.main_worktree.clone(),
            common_git_dir: self.common_git_dir.clone(),
        }
    }
}

/// A repository by its views.
pub open spec fn repository_outcome(r: Result<Repository, Failure>) -> Result<
    (Seq<char>, Seq<char>),
    Seq<Seq<char>>,
> {
    match r {
        Ok(repository) => Ok((repository.main_worktree@, repository.common_git_dir@)),
        Err(failure) => Err(failure@),
    }
}

/// The first worktree in a listing, which is the main one.
pub open spec fn first_listed(lines: Seq<Seq<char>>, from: int) -> Option<Seq<char>>
    decreases lines.len() - from,
{
    if from < 0 || from >= lines.len() {
        None
    } else if crate::strings::has_prefix(lines[from], "worktree "@) {
        Some(lines[from].skip(9))
    } else {
        first_listed(lines, from + 1)
    }
}

/// The first worktree in a listing.
pub fn main_worktree_of(listing: &str) -> (path: Option<String>)
    ensures
        match path {
            Some(p) => first_listed(crate::strings::lines(listing@), 0) == Some(p@),
            None => first_listed(crate::strings::lines(listing@), 0) is None,
        },
{
    proof {
        reveal_strlit("worktree ");
    }
    let lines = lines_of(&chars_of(listing));
    let ghost views = crate::strings::text_views(lines@);
    let mut i: usize = 0;
    while i < lines.len()
        invariant
            i <= lines@.len(),
            "worktree "@.len() == 9,
            views == crate::strings::text_views(lines@),
            views == crate::strings::lines(listing@),
            first_listed(views, 0) == first_listed(views, i as int),
        decreases lines@.len() - i,
    {
        assert(views[i as int] == lines@[i as int]@);
        if let Some(rest) = strip_text_prefix(lines[i].as_str(), "worktree ") {
            return Some(rest);
        }
        i = i + 1;
    }
    None
}

/// The directory that all worktrees of a repository share, as Git printed it: seen from the top of
/// the worktree where it is not absolute.
pub fn common_directory(top: &str, common: &str, windows: bool) -> (path: String)
    ensures
        path@ == shared_directory(top@, common@, windows),
{
    if is_absolute(common, windows) {
        common.to_owned()
    } else {
        join_path(top, common, windows)
    }
}

/// The directory that all worktrees of a repository share.
pub open spec fn shared_directory(top: Seq<char>, common: Seq<char>, windows: bool) -> Seq<char> {
    if crate::paths::absolute(common, windows) {
        common
    } else {
        crate::paths::joined(top, common, windows)
    }
}

/// The repository that a directory belongs to, by what Git printed of it.
pub open spec fn repository_of(
    path: Seq<char>,
    top: Result<CommandOutput, Failure>,
    common: Result<CommandOutput, Failure>,
    list: Result<CommandOutput, Failure>,
    paths: ResolvedPaths,
) -> Result<(Seq<char>, Seq<char>), Seq<Seq<char>>> {
    match git_text(top) {
        Err(failure) => Err(seq![path + " is not a Git worktree"@] + failure),
        Ok(top_level) => {
            let current = paths.resolved(top_level);
            match git_text(common) {
                Err(failure) => Err(failure),
                Ok(common_dir) => match git_text(list) {
                    Err(failure) => Err(failure),
                    Ok(listing) => {
                        let main = match first_listed(crate::strings::lines(listing), 0) {
                            Some(p) => p,
                            None => current,
                        };
                        Ok(
                            (
                                paths.resolved(main),
                                paths.resolved(
                                    shared_directory(current, common_dir, paths.windows),
                                ),
                            ),
                        )
                    },
                },
            }
        },
    }
}

/// The repository that a directory belongs to, by what Git printed of its top, of the directory its
/// worktrees share, and of its worktrees.
pub fn resolve_repository(
    path: &str,
    top: &Result<CommandOutput, Failure>,
    common: &Result<CommandOutput, Failure>,
    list: &Result<CommandOutput, Failure>,
    paths: &ResolvedPaths,
) -> (r: Result<Repository, Failure>)
    ensures
        repository_outcome(r) == repository_of(path@, *top, *common, *list, *paths),
{
    let top_level = match git_stdout(top) {
        Ok(text) => text,
        Err(failure) => {
            let mut message = path.to_owned();
            append_text(&mut message, " is not a Git worktree");
            return Err(failure.context(message));
        },
    };
    let current = paths.resolve(top_level.as_str());
    let common_dir = match git_stdout(common) {
        Ok(text) => text,
        Err(failure) => return Err(failure),
    };
    let listing = match git_stdout(list) {
        Ok(text) => text,
        Err(failure) => return Err(failure),
    };
    let shared = common_directory(current.as_str(), common_dir.as_str(), paths.windows);
    let main = match main_worktree_of(listing.as_str()) {
        Some(p) => p,
        None => current,
    };
    Ok(
        Repository {
            main_worktree: paths.resolve(main.as_str()),
            common_git_dir: paths.resolve(shared.as_str()),
        },
    )
}

/// The main worktree of the repository that a directory belongs to.
pub fn resolve_repository_root(repository: Result<Repository, Failure>) -> (r: Result<
    String,
    Failure,
>)
    ensures
        text_outcome(r) == (match repository_outcome(repository) {
            Ok((main, _)) => Ok(main),
            Err(failure) => Err(failure),
        }),
{
    match repository {
        Ok(found) => Ok(found.main_worktree),
        Err(failure) => Err(failure),
    }
}

/// What is wrong with the name of a branch. `checked` is what Git said of it.
pub open spec fn branch_syntax(branch: Seq<char>, checked: Result<CommandOutput, Failure>) -> Result<
    (),
    Seq<Seq<char>>,
> {
    if crate::strings::trim(branch) != branch || branch.len() == 0 {
        Err(seq!["Branch name cannot be empty or have leading/trailing whitespace"@])
    } else {
        match checked {
            Err(failure) => Err(seq!["Failed to run Git branch validation"@] + failure@),
            Ok(output) => if output.success {
                Ok(())
            } else {
                Err(seq![quoted("Invalid branch name '"@, branch, "': "@) + complaint(output)])
            },
        }
    }
}

/// Whether the name of a branch is one that Git takes.
pub fn validate_branch_syntax(branch: &str, checked: &Result<CommandOutput, Failure>) -> (r: Result<
    (),
    Failure,
>)
    ensures
        done_outcome(r) == branch_syntax(branch@, *checked),
{
    let bare = trimmed(branch);
    if !same_text(bare.as_str(), branch) || branch.is_empty() {
        return Err(
            Failure::of(
                "Branch name cannot be empty or have leading/trailing whitespace".to_owned(),
            ),
        );
    }
    match checked {
        Err(failure) => Err(
            failure.clone().context("Failed to run Git branch validation".to_owned()),
        ),
        Ok(output) => {
            if output.success {
                Ok(())
            } else {
                let mut message = quote("Invalid branch name '", branch, "': ");
                append_text(&mut message, command_error(output).as_str());
                Err(Failure::of(message))
            }
        },
    }
}

/// Whether there is a branch, by what Git said of it. Git ends with 1 where there is none.
pub open spec fn branch_found(branch: Seq<char>, shown: Result<CommandOutput, Failure>) -> Result<
    bool,
    Seq<Seq<char>>,
> {
    match shown {
        Err(failure) => Err(failure@),
        Ok(output) => if output.success {
            Ok(true)
        } else if output.code != Some(1i32) {
            Err(
                seq![
                    quoted("Failed to check whether branch '"@, branch, "' exists: "@) + complaint(
                        output,
                    ),
                ],
            )
        } else {
            Ok(false)
        },
    }
}

/// Why a branch is taken.
pub open spec fn branch_collision(branch: Seq<char>, shown: Result<CommandOutput, Failure>) -> Result<
    (),
    Seq<Seq<char>>,
> {
    match branch_found(branch, shown) {
        Err(failure) => Err(failure),
        Ok(true) => Err(seq!["Branch already exists: "@ + branch]),
        Ok(false) => Ok(()),
    }
}

/// Whether there is a branch, by what Git said of it.
pub fn branch_exists(branch: &str, shown: &Result<CommandOutput, Failure>) -> (r: Result<
    bool,
    Failure,
>)
    ensures
        match r {
            Ok(found) => branch_found(branch@, *shown) == Ok::<bool, Seq<Seq<char>>>(found),
            Err(failure) => branch_found(branch@, *shown) == Err::<bool, Seq<Seq<char>>>(failure@),
        },
{
    match shown {
        Err(failure) => Err(failure.clone()),
        Ok(output) => {
            if output.success {
                return Ok(true);
            }
            let absent = match output.code {
                Some(code) => code == 1,
                None => false,
            };
            if !absent {
                let mut message = quote("Failed to check whether branch '", branch, "' exists: ");
                append_text(&mut message, command_error(output).as_str());
                return Err(Failure::of(message));
            }
            Ok(false)
        },
    }
}

/// Refuses a branch that exists.
pub fn reject_branch_collision(branch: &str, shown: &Result<CommandOutput, Failure>) -> (r: Result<
    (),
    Failure,
>)
    ensures
        done_outcome(r) == branch_collision(branch@, *shown),
{
    match branch_exists(branch, shown) {
        Err(failure) => Err(failure),
        Ok(found) => {
            if found {
                let mut message = "Branch already exists: ".to_owned();
                append_text(&mut message, branch);
                Err(Failure::of(message))
            } else {
                Ok(())
            }
        },
    }
}

/// Why a branch cannot be made in a repository.
pub open spec fn branch_refusal(
    branch: Seq<char>,
    checked: Result<CommandOutput, Failure>,
    repository: Result<Repository, Failure>,
    shown: Result<CommandOutput, Failure>,
) -> Result<(), Seq<Seq<char>>> {
    match branch_syntax(branch, checked) {
        Err(failure) => Err(failure),
        Ok(_) => match repository_outcome(repository) {
            Err(failure) => Err(failure),
            Ok(_) => branch_collision(branch, shown),
        },
    }
}

/// Whether a branch can be made in a repository: Git takes its name, the repository is one, and it
/// has no such branch. `checked` is what Git said of the name, and `shown` of the branch.
pub fn validate_branch(
    branch: &str,
    checked: &Result<CommandOutput, Failure>,
    repository: &Result<Repository, Failure>,
    shown: &Result<CommandOutput, Failure>,
) -> (r: Result<(), Failure>)
    ensures
        done_outcome(r) == branch_refusal(branch@, *checked, *repository, *shown),
{
    match validate_branch_syntax(branch, checked) {
        Ok(_) => {},
        Err(failure) => return Err(failure),
    }
    match repository {
        Ok(_) => reject_branch_collision(branch, shown),
        Err(failure) => Err(failure.clone()),
    }
}

/// A branch by which a prefix for branches is tried out.
pub fn prefix_probe(prefix: &str) -> (branch: String)
    ensures
        branch@ == prefix@ + "cst-test"@,
{
    let mut branch = prefix.to_owned();
    append_text(&mut branch, "cst-test");
    branch
}

/// Whether branches can begin with a prefix. `checked` is what Git said of a branch that does.
pub fn validate_branch_prefix(prefix: &str, checked: &Result<CommandOutput, Failure>) -> (r: Result<
    (),
    Failure,
>)
    ensures
        done_outcome(r) == (match branch_syntax(prefix@ + "cst-test"@, *checked) {
            Ok(_) => Ok(()),
            Err(failure) => Err(
                seq!["Branch prefix would produce an invalid Git branch"@] + failure,
            ),
        }),
{
    let branch = prefix_probe(prefix);
    match validate_branch_syntax(branch.as_str(), checked) {
        Ok(_) => Ok(()),
        Err(failure) => Err(
            failure.context("Branch prefix would produce an invalid Git branch".to_owned()),
        ),
    }
}

/// The name of a branch that is made up: the prefix, and the present time in the form of a stamp.
pub fn generated_branch_name(prefix: &str, stamp: &str) -> (branch: String)
    ensures
        branch@ == prefix@ + stamp@,
{
    let mut branch = prefix.to_owned();
    append_text(&mut branch, stamp);
    branch
}

/// The commit a branch begins at, and a notice where that is not the remote's. `remote` and `head`
/// are what Git printed of the two.
pub open spec fn base_of(
    remote: Result<CommandOutput, Failure>,
    head: Result<CommandOutput, Failure>,
) -> Result<(Seq<char>, Option<Seq<char>>), Seq<Seq<char>>> {
    match remote {
        Err(failure) => Err(failure@),
        Ok(output) => if output.success {
            Ok((printed(output.stdout@), None))
        } else {
            match git_text(head) {
                Err(failure) => Err(
                    seq!["Unable to resolve either cached origin/HEAD or current HEAD"@] + failure,
                ),
                Ok(commit) => Ok(
                    (
                        commit,
                        Some(
                            "Cached origin/HEAD was unavailable; the worktree was based on the project's current HEAD"@,
                        ),
                    ),
                ),
            }
        },
    }
}

/// The commit a branch begins at, and a notice where that is not the remote's.
pub fn resolve_base(
    remote: &Result<CommandOutput, Failure>,
    head: &Result<CommandOutput, Failure>,
) -> (r: Result<(String, Option<String>), Failure>)
    ensures
        match r {
            Ok((commit, notice)) => base_of(*remote, *head) == Ok::<
                (Seq<char>, Option<Seq<char>>),
                Seq<Seq<char>>,
            >((commit@, crate::session::process::text_view(notice))),
            Err(failure) => base_of(*remote, *head) == Err::<
                (Seq<char>, Option<Seq<char>>),
                Seq<Seq<char>>,
            >(failure@),
        },
{
    match remote {
        Err(failure) => return Err(failure.clone()),
        Ok(output) => {
            if output.success {
                return Ok((printed_text(&output.stdout), None));
            }
        },
    }
    match git_stdout(head) {
        Err(failure) => Err(
            failure.context(
                "Unable to resolve either cached origin/HEAD or current HEAD".to_owned(),
            ),
        ),
        Ok(commit) => Ok(
            (
                commit,
                Some(
                    "Cached origin/HEAD was unavailable; the worktree was based on the project's current HEAD".to_owned(),
                ),
            ),
        ),
    }
}

/// How far a name for the file system has come after some characters: every run of others than ASCII
/// letters and digits is one hyphen, none at the start, and nothing goes beyond the limit.
pub open spec fn slug_after(value: Seq<char>, max_len: int) -> Seq<char>
    decreases value.len(),
{
    if value.len() == 0 {
        Seq::empty()
    } else {
        let before = slug_after(value.drop_last(), max_len);
        let c = value.last();
        if before.len() >= max_len {
            before
        } else if crate::strings::ascii_alphanumeric(c) {
            before.push(crate::strings::ascii_lower(c))
        } else if before.len() > 0 && before.last() != '-' {
            before.push('-')
        } else {
            before
        }
    }
}

/// A text without the hyphens at its end.
pub open spec fn without_hyphens(s: Seq<char>) -> Seq<char>
    decreases s.len(),
{
    if s.len() > 0 && s.last() == '-' {
        without_hyphens(s.drop_last())
    } else {
        s
    }
}

/// A text as a name for the file system.
pub open spec fn slug(value: Seq<char>, max_len: int) -> Seq<char> {
    let name = without_hyphens(slug_after(value, max_len));
    if name.len() == 0 {
        "item"@
    } else {
        name
    }
}

proof fn lemma_without_hyphens_take(s: Seq<char>, n: int)
    requires
        0 <= n <= s.len(),
        forall|i: int| n <= i < s.len() ==> s[i] == '-',
        n == 0 || s[n - 1] != '-',
    ensures
        without_hyphens(s) == s.take(n),
    decreases s.len(),
{
    if s.len() > n {
        assert(s.drop_last().take(n) == s.take(n));
        lemma_without_hyphens_take(s.drop_last(), n);
    } else {
        assert(s.take(n) == s);
    }
}

/// A text as a name for the file system.
pub fn filesystem_slug(value: &str, max_len: usize) -> (name: String)
    ensures
        name@ == slug(value@, max_len as int),
{
    let chars = chars_of(value);
    let mut name: Vec<char> = Vec::new();
    let mut i: usize = 0;
    while i < chars.len()
        invariant
            i <= chars@.len(),
            chars@ == value@,
            name@ == slug_after(value@.take(i as int), max_len as int),
        decreases chars@.len() - i,
    {
        assert(value@.take(i + 1).drop_last() == value@.take(i as int));
        let count: usize = name.len();
        if count < max_len {
            if is_ascii_alphanumeric(chars[i]) {
                name.push(to_ascii_lower(chars[i]));
            } else if count > 0 && name[count - 1] != '-' {
                name.push('-');
            }
        }
        i = i + 1;
    }
    assert(value@.take(i as int) == value@);
    let ghost whole = name@;
    let mut end: usize = name.len();
    while end > 0 && name[end - 1] == '-'
        invariant
            end <= name@.len(),
            name@ == whole,
            forall|j: int| end <= j < whole.len() ==> whole[j] == '-',
        decreases end,
    {
        end = end - 1;
    }
    proof {
        lemma_without_hyphens_take(whole, end as int);
    }
    if end == 0 {
        return "item".to_owned();
    }
    let text = text_between(&name, 0, end);
    assert(text@ == whole.take(end as int));
    text
}

/// The first characters of the digest of a text.
pub open spec fn digest_start(value: Seq<char>, length: int) -> Seq<char> {
    crate::hashing::hex(crate::hashing::sha256(vstd::utf8::encode_utf8(value))).take(length)
}

/// The first characters of the digest of a text.
pub fn short_hash(value: &str, length: usize) -> (hash: String)
    requires
        length <= 64,
    ensures
        hash@ == digest_start(value@, length as int),
        hash@.len() == length,
        forall|i: int| 0 <= i < length ==> slug_char(#[trigger] hash@[i]),
{
    let bytes = value.as_bytes_vec();
    let digest = sha256_digest(&bytes);
    let text = hex_text(&digest);
    proof {
        crate::hashing::law_hex_shape(digest@);
    }
    let chars = chars_of(text.as_str());
    let hash = text_between(&chars, 0, length);
    assert(hash@ == text@.take(length as int));
    hash
}

/// The number of UTF-16 code units of a text.
pub open spec fn utf16_len(s: Seq<char>) -> nat
    decreases s.len(),
{
    if s.len() == 0 {
        0
    } else {
        utf16_len(s.drop_last()) + (if s.last() as u32 >= 0x10000 {
            2nat
        } else {
            1nat
        })
    }
}

/// Whether a text has more UTF-16 code units than a limit.
fn exceeds_utf16(text: &str, limit: usize) -> (r: bool)
    requires
        limit < usize::MAX - 1,
    ensures
        r == (utf16_len(text@) > limit),
{
    let chars = chars_of(text);
    let mut units: usize = 0;
    let mut i: usize = 0;
    while i < chars.len()
        invariant
            i <= chars@.len(),
            chars@ == text@,
            limit < usize::MAX - 1,
            units <= limit,
            units == utf16_len(text@.take(i as int)),
        decreases chars@.len() - i,
    {
        proof {
            assert(text@.take(i + 1).drop_last() == text@.take(i as int));
            lemma_utf16_grows(text@, i + 1);
        }
        units = units + (if chars[i] as u32 >= 0x10000 {
            2
        } else {
            1
        });
        if units > limit {
            return true;
        }
        i = i + 1;
    }
    assert(text@.take(i as int) == text@);
    false
}

proof fn lemma_utf16_grows(s: Seq<char>, n: int)
    requires
        0 <= n <= s.len(),
    ensures
        utf16_len(s.take(n)) <= utf16_len(s),
    decreases s.len(),
{
    if n < s.len() {
        assert(s.drop_last().take(n) == s.take(n));
        lemma_utf16_grows(s.drop_last(), n);
    } else {
        assert(s.take(n) == s);
    }
}

/// The name of the directory for the worktrees of a repository.
pub open spec fn repository_component(
    repository: Seq<char>,
    common_git_dir: Seq<char>,
    windows: bool,
) -> Seq<char> {
    let name = match crate::paths::file_name(repository, windows) {
        Some(n) => n,
        None => "repo"@,
    };
    slug(name, 20) + "-"@ + digest_start(common_git_dir, 10)
}

/// The name of the directory for the worktree of a branch.
pub open spec fn branch_component(branch: Seq<char>) -> Seq<char> {
    slug(branch, 32) + "-"@ + digest_start(branch, 12)
}

/// Where the worktree of a branch lies: below the root, below a directory for its repository.
pub open spec fn worktree_place(
    root: Seq<char>,
    repository: Seq<char>,
    common_git_dir: Seq<char>,
    branch: Seq<char>,
    windows: bool,
) -> Seq<char> {
    crate::paths::joined(
        crate::paths::joined(
            root,
            repository_component(repository, common_git_dir, windows),
            windows,
        ),
        branch_component(branch),
        windows,
    )
}

/// Whether a name holds nothing but lower-case letters, digits and hyphens, so that it leads nowhere
/// but to itself.
pub open spec fn safe_name(name: Seq<char>) -> bool {
    name.len() > 0 && forall|i: int| 0 <= i < name.len() ==> slug_char(#[trigger] name[i])
}

proof fn lemma_safe_name(front: Seq<char>, back: Seq<char>)
    requires
        safe_name(front),
        safe_name(back),
    ensures
        safe_name(front + "-"@ + back),
{
    reveal_strlit("-");
    let whole = front + "-"@ + back;
    assert forall|i: int| 0 <= i < whole.len() implies slug_char(#[trigger] whole[i]) by {
        if i < front.len() {
            assert(whole[i] == front[i]);
        } else if i > front.len() {
            assert(whole[i] == back[i - front.len() - 1]);
        }
    }
}

/// Where the worktree of a branch lies. There is no place without a root, and none whose path is
/// longer than Windows takes.
pub open spec fn worktree_path(
    root: Seq<char>,
    repository: Seq<char>,
    common_git_dir: Seq<char>,
    branch: Seq<char>,
    windows: bool,
) -> Result<Seq<char>, Seq<Seq<char>>> {
    let place = worktree_place(root, repository, common_git_dir, branch, windows);
    if root.len() == 0 {
        Err(seq!["Worktree root cannot be empty"@])
    } else if utf16_len(place) > 240 {
        Err(
            seq![
                "Derived worktree path is too long (>240 characters). Configure a shorter worktree root"@,
            ],
        )
    } else {
        Ok(place)
    }
}

/// Where the worktree of a branch lies.
pub fn derive_worktree_path(
    root: &str,
    repository: &str,
    common_git_dir: &str,
    branch: &str,
    windows: bool,
) -> (r: Result<String, Failure>)
    ensures
        text_outcome(r) == worktree_path(root@, repository@, common_git_dir@, branch@, windows),
        r is Ok ==> safe_name(branch_component(branch@)) && safe_name(
            repository_component(repository@, common_git_dir@, windows),
        ),
{
    if root.is_empty() {
        return Err(Failure::of("Worktree root cannot be empty".to_owned()));
    }
    let name = match path_file_name(repository, windows) {
        Some(name) => name,
        None => "repo".to_owned(),
    };
    let mut outer = filesystem_slug(name.as_str(), 20);
    append_text(&mut outer, "-");
    append_text(&mut outer, short_hash(common_git_dir, 10).as_str());
    let mut inner = filesystem_slug(branch, 32);
    append_text(&mut inner, "-");
    append_text(&mut inner, short_hash(branch, 12).as_str());
    proof {
        reveal_strlit("-");
        law_slug_is_safe_and_bounded(name@, 20);
        law_slug_is_safe_and_bounded(branch@, 32);
        lemma_safe_name(slug(name@, 20), digest_start(common_git_dir@, 10));
        lemma_safe_name(slug(branch@, 32), digest_start(branch@, 12));
    }
    let middle = join_path(root, outer.as_str(), windows);
    let path = join_path(middle.as_str(), inner.as_str(), windows);
    if exceeds_utf16(path.as_str(), 240) {
        return Err(
            Failure::of(
                "Derived worktree path is too long (>240 characters). Configure a shorter worktree root".to_owned(),
            ),
        );
    }
    Ok(path)
}

/// Whether a character may stand in a name for the file system.
pub open spec fn slug_char(c: char) -> bool {
    ('a' <= c && c <= 'z') || ('0' <= c && c <= '9') || c == '-'
}

/// Whether no two hyphens of a text stand beside each other.
pub open spec fn single_hyphens(s: Seq<char>) -> bool {
    forall|i: int| 0 < i < s.len() && #[trigger] s[i] == '-' ==> s[i - 1] != '-'
}

proof fn lemma_slug_after(value: Seq<char>, max_len: int)
    requires
        max_len >= 0,
    ensures
        slug_after(value, max_len).len() <= max_len,
        forall|i: int|
            0 <= i < slug_after(value, max_len).len() ==> slug_char(
                #[trigger] slug_after(value, max_len)[i],
            ),
        slug_after(value, max_len).len() > 0 ==> slug_after(value, max_len)[0] != '-',
        single_hyphens(slug_after(value, max_len)),
    decreases value.len(),
{
    if value.len() > 0 {
        let before = slug_after(value.drop_last(), max_len);
        lemma_slug_after(value.drop_last(), max_len);
        let whole = slug_after(value, max_len);
        assert forall|i: int| 0 < i < whole.len() && #[trigger] whole[i] == '-' implies whole[i - 1]
            != '-' by {
            if i < before.len() {
                assert(before[i] == '-');
                assert(whole[i - 1] == before[i - 1]);
            }
        }
        assert forall|i: int| 0 <= i < whole.len() implies slug_char(#[trigger] whole[i]) by {
            if i < before.len() {
                assert(whole[i] == before[i]);
            }
        }
    }
}

proof fn lemma_without_hyphens(s: Seq<char>)
    ensures
        without_hyphens(s).len() <= s.len(),
        without_hyphens(s) == s.take(without_hyphens(s).len() as int),
        without_hyphens(s).len() > 0 ==> without_hyphens(s).last() != '-',
    decreases s.len(),
{
    if s.len() > 0 && s.last() == '-' {
        lemma_without_hyphens(s.drop_last());
        let n = without_hyphens(s).len() as int;
        assert(s.drop_last().take(n) == s.take(n));
    } else {
        assert(s.take(s.len() as int) == s);
    }
}

/// A name for the file system is safe and bounded: it is not empty, holds nothing but lower-case
/// letters, digits and hyphens, neither begins nor ends with a hyphen and has no two of them beside
/// each other, and is no longer than asked for (four characters where that is less).
pub proof fn law_slug_is_safe_and_bounded(value: Seq<char>, max_len: int)
    requires
        max_len >= 0,
    ensures
        0 < slug(value, max_len).len() <= (if max_len > 4 {
            max_len
        } else {
            4
        }),
        forall|i: int|
            0 <= i < slug(value, max_len).len() ==> slug_char(#[trigger] slug(value, max_len)[i]),
        slug(value, max_len)[0] != '-',
        slug(value, max_len).last() != '-',
        single_hyphens(slug(value, max_len)),
{
    reveal_strlit("item");
    lemma_slug_after(value, max_len);
    let whole = slug_after(value, max_len);
    lemma_without_hyphens(whole);
    let name = without_hyphens(whole);
    assert forall|i: int| 0 <= i < slug(value, max_len).len() implies slug_char(
        #[trigger] slug(value, max_len)[i],
    ) by {
        if name.len() > 0 {
            assert(slug(value, max_len)[i] == whole[i]);
        }
    }
    if name.len() > 0 {
        assert(name[0] == whole[0]);
        assert forall|i: int| 0 < i < name.len() && #[trigger] name[i] == '-' implies name[i - 1]
            != '-' by {
            assert(whole[i] == '-');
            assert(whole[i - 1] == name[i - 1]);
        }
    }
}

/// Texts that differ in the case of ASCII letters alone have one name for the file system.
pub proof fn law_slug_ignores_case(a: Seq<char>, b: Seq<char>, max_len: int)
    requires
        crate::strings::ascii_lower_text(a) == crate::strings::ascii_lower_text(b),
    ensures
        slug(a, max_len) == slug(b, max_len),
{
    lemma_slug_of_lower_case(a, max_len);
    lemma_slug_of_lower_case(b, max_len);
}

proof fn lemma_slug_of_lower_case(value: Seq<char>, max_len: int)
    ensures
        slug_after(crate::strings::ascii_lower_text(value), max_len) == slug_after(value, max_len),
    decreases value.len(),
{
    let lower = crate::strings::ascii_lower_text(value);
    if value.len() > 0 {
        lemma_slug_of_lower_case(value.drop_last(), max_len);
        assert(lower.drop_last() =~= crate::strings::ascii_lower_text(value.drop_last()));
        assert(lower.last() == crate::strings::ascii_lower(value.last()));
    }
}

proof fn lemma_safe_name_is_plain(name: Seq<char>, windows: bool)
    requires
        safe_name(name),
    ensures
        crate::paths::plain_name(name, windows),
{
    assert(slug_char(name[0]));
    if name.len() >= 2 {
        assert(slug_char(name[1]));
    }
    assert(name != seq!['.'] && name != seq!['.', '.']) by {
        assert(seq!['.'][0] == '.' && seq!['.', '.'][0] == '.');
    }
}

proof fn lemma_branch_component(branch: Seq<char>)
    requires
        crate::hashing::sha256(vstd::utf8::encode_utf8(branch)).len() == 32,
    ensures
        safe_name(branch_component(branch)),
        digest_start(branch, 12).len() == 12,
{
    let digest = crate::hashing::sha256(vstd::utf8::encode_utf8(branch));
    crate::hashing::law_hex_shape(digest);
    law_slug_is_safe_and_bounded(branch, 32);
    let start = digest_start(branch, 12);
    assert forall|i: int| 0 <= i < start.len() implies slug_char(#[trigger] start[i]) by {
        assert(start[i] == crate::hashing::hex(digest)[i]);
    }
    lemma_safe_name(slug(branch, 32), start);
}

/// Two branches of one repository get one place only where their digests, which have 32 bytes, begin
/// alike.
pub proof fn law_worktrees_are_kept_apart(
    root: Seq<char>,
    repository: Seq<char>,
    common_git_dir: Seq<char>,
    a: Seq<char>,
    b: Seq<char>,
    windows: bool,
)
    requires
        crate::hashing::sha256(vstd::utf8::encode_utf8(a)).len() == 32,
        crate::hashing::sha256(vstd::utf8::encode_utf8(b)).len() == 32,
        worktree_place(root, repository, common_git_dir, a, windows) == worktree_place(
            root,
            repository,
            common_git_dir,
            b,
            windows,
        ),
    ensures
        digest_start(a, 12) == digest_start(b, 12),
{
    lemma_branch_component(a);
    lemma_branch_component(b);
    let base = crate::paths::joined(
        root,
        repository_component(repository, common_git_dir, windows),
        windows,
    );
    lemma_safe_name_is_plain(branch_component(a), windows);
    lemma_safe_name_is_plain(branch_component(b), windows);
    crate::paths::lemma_name_behind(base, branch_component(a), windows);
    crate::paths::lemma_name_behind(base, branch_component(b), windows);
    let place = worktree_place(root, repository, common_git_dir, a, windows);
    let n = place.len();
    assert(place.skip(n - 12) =~= digest_start(a, 12));
    assert(place.skip(n - 12) =~= digest_start(b, 12));
}

proof fn lemma_repository_component(repository: Seq<char>, common_git_dir: Seq<char>, windows: bool)
    requires
        crate::hashing::sha256(vstd::utf8::encode_utf8(common_git_dir)).len() == 32,
    ensures
        safe_name(repository_component(repository, common_git_dir, windows)),
        digest_start(common_git_dir, 10).len() == 10,
{
    let digest = crate::hashing::sha256(vstd::utf8::encode_utf8(common_git_dir));
    crate::hashing::law_hex_shape(digest);
    let name = match crate::paths::file_name(repository, windows) {
        Some(n) => n,
        None => "repo"@,
    };
    law_slug_is_safe_and_bounded(name, 20);
    let start = digest_start(common_git_dir, 10);
    assert forall|i: int| 0 <= i < start.len() implies slug_char(#[trigger] start[i]) by {
        assert(start[i] == crate::hashing::hex(digest)[i]);
    }
    lemma_safe_name(slug(name, 20), start);
}

/// How the path of a worktree ends: with the name of the repository's directory and the start of the
/// digest of its common Git directory, then with the name of the branch and the start of its digest.
/// What parts the names stands between them.
pub proof fn law_worktree_paths_hold_both_digests(
    root: Seq<char>,
    repository: Seq<char>,
    common_git_dir: Seq<char>,
    branch: Seq<char>,
    windows: bool,
)
    requires
        crate::hashing::sha256(vstd::utf8::encode_utf8(common_git_dir)).len() == 32,
        crate::hashing::sha256(vstd::utf8::encode_utf8(branch)).len() == 32,
        worktree_path(root, repository, common_git_dir, branch, windows) is Ok,
    ensures
        ({
            let path = worktree_path(root, repository, common_git_dir, branch, windows)->Ok_0;
            let name = match crate::paths::file_name(repository, windows) {
                Some(n) => n,
                None => "repo"@,
            };
            let at = path.len() - 13 - slug(branch, 32).len();
            let before = at - 12 - slug(name, 20).len();
            &&& 0 <= before
            &&& path.subrange(before, at - 12) == slug(name, 20)
            &&& path[at - 12] == '-'
            &&& path.subrange(at - 11, at - 1) == crate::hashing::hex(
                crate::hashing::sha256(vstd::utf8::encode_utf8(common_git_dir)),
            ).take(10)
            &&& path[at - 1] == crate::paths::main_separator(windows)
            &&& path.subrange(at, path.len() - 13) == slug(branch, 32)
            &&& path[path.len() - 13] == '-'
            &&& path.skip(path.len() - 12) == crate::hashing::hex(
                crate::hashing::sha256(vstd::utf8::encode_utf8(branch)),
            ).take(12)
        }),
{
    reveal_strlit("-");
    let outer = repository_component(repository, common_git_dir, windows);
    let inner = branch_component(branch);
    lemma_branch_component(branch);
    lemma_repository_component(repository, common_git_dir, windows);
    lemma_safe_name_is_plain(inner, windows);
    lemma_safe_name_is_plain(outer, windows);
    let middle = crate::paths::joined(root, outer, windows);
    crate::paths::lemma_stem_ends_with_name(root, outer, windows);
    crate::paths::lemma_name_behind(middle, inner, windows);
    let front = crate::paths::stem(middle, windows);
    let path = worktree_path(root, repository, common_git_dir, branch, windows)->Ok_0;
    assert(path == front + inner);
    let name = match crate::paths::file_name(repository, windows) {
        Some(n) => n,
        None => "repo"@,
    };
    let at = path.len() - 13 - slug(branch, 32).len();
    let before = at - 12 - slug(name, 20).len();
    assert(at == front.len());
    assert(outer.len() == slug(name, 20).len() + 11);
    assert(path.subrange(before, at - 1) =~= outer) by {
        assert(path.subrange(before, at - 1) =~= front.subrange(before, at - 1));
    }
    assert forall|i: int| 0 <= i < outer.len() implies path[before + i] == #[trigger] outer[i] by {
        assert(path.subrange(before, at - 1)[i] == outer[i]);
    }
    assert(path.subrange(before, at - 12) =~= slug(name, 20)) by {
        assert forall|i: int| 0 <= i < slug(name, 20).len() implies path.subrange(before, at - 12)[i]
            == slug(name, 20)[i] by {
            assert(outer[i] == slug(name, 20)[i]);
        }
    }
    assert(outer[slug(name, 20).len() as int] == '-');
    assert(path.subrange(at - 11, at - 1) =~= digest_start(common_git_dir, 10)) by {
        assert forall|i: int| 0 <= i < 10 implies path.subrange(at - 11, at - 1)[i] == digest_start(
            common_git_dir,
            10,
        )[i] by {
            assert(outer[slug(name, 20).len() + 1 + i] == digest_start(common_git_dir, 10)[i]);
        }
    }
    assert(path.subrange(at, path.len() - 13) =~= slug(branch, 32));
    assert(path.skip(path.len() - 12) =~= digest_start(branch, 12));
}

/// Under one root and for one branch, two repositories get one path only where the digests of their
/// common Git directories begin alike in ten digits.
pub proof fn law_repositories_are_kept_apart(
    root: Seq<char>,
    one: (Seq<char>, Seq<char>),
    other: (Seq<char>, Seq<char>),
    branch: Seq<char>,
    windows: bool,
)
    requires
        crate::hashing::sha256(vstd::utf8::encode_utf8(one.1)).len() == 32,
        crate::hashing::sha256(vstd::utf8::encode_utf8(other.1)).len() == 32,
        crate::hashing::sha256(vstd::utf8::encode_utf8(branch)).len() == 32,
        worktree_path(root, one.0, one.1, branch, windows) is Ok,
        worktree_path(root, one.0, one.1, branch, windows) == worktree_path(
            root,
            other.0,
            other.1,
            branch,
            windows,
        ),
    ensures
        crate::hashing::hex(crate::hashing::sha256(vstd::utf8::encode_utf8(one.1))).take(10)
            == crate::hashing::hex(crate::hashing::sha256(vstd::utf8::encode_utf8(other.1))).take(10),
{
    law_worktree_paths_hold_both_digests(root, one.0, one.1, branch, windows);
    law_worktree_paths_hold_both_digests(root, other.0, other.1, branch, windows);
}

/// A name that is safe already, and short enough, is its own slug.
pub proof fn law_safe_names_are_their_own_slug(value: Seq<char>, max_len: int)
    requires
        0 < value.len() <= max_len,
        safe_name(value),
        single_hyphens(value),
        value[0] != '-',
        value.last() != '-',
    ensures
        slug(value, max_len) == value,
{
    lemma_slug_of_safe(value, value.len() as int, max_len);
    assert(value.take(value.len() as int) =~= value);
}

proof fn lemma_slug_of_safe(value: Seq<char>, n: int, max_len: int)
    requires
        0 <= n <= value.len() <= max_len,
        safe_name(value),
        single_hyphens(value),
        value[0] != '-',
    ensures
        slug_after(value.take(n), max_len) == value.take(n),
    decreases n,
{
    if n > 0 {
        lemma_slug_of_safe(value, n - 1, max_len);
        assert(value.take(n).drop_last() =~= value.take(n - 1));
        assert(slug_char(value[n - 1]));
        assert(value.take(n).last() == value[n - 1]);
        assert(value.take(n - 1).push(value[n - 1]) =~= value.take(n));
        if value[n - 1] == '-' {
            assert(n > 1);
            assert(value[n - 2] != '-');
            assert(value.take(n - 1).last() == value[n - 2]);
        }
    } else {
        assert(value.take(0) =~= Seq::<char>::empty());
    }
}

/// All that is no letter and no digit counts alike in a slug.
pub proof fn law_slug_takes_all_marks_alike(a: Seq<char>, b: Seq<char>, max_len: int)
    requires
        a.len() == b.len(),
        forall|i: int|
            0 <= i < a.len() ==> #[trigger] a[i] == b[i] || (!crate::strings::ascii_alphanumeric(a[i])
                && !crate::strings::ascii_alphanumeric(b[i])),
    ensures
        slug(a, max_len) == slug(b, max_len),
{
    lemma_slug_of_marks(a, b, max_len);
}

proof fn lemma_slug_of_marks(a: Seq<char>, b: Seq<char>, max_len: int)
    requires
        a.len() == b.len(),
        forall|i: int|
            0 <= i < a.len() ==> #[trigger] a[i] == b[i] || (!crate::strings::ascii_alphanumeric(a[i])
                && !crate::strings::ascii_alphanumeric(b[i])),
    ensures
        slug_after(a, max_len) == slug_after(b, max_len),
    decreases a.len(),
{
    if a.len() > 0 {
        lemma_slug_of_marks(a.drop_last(), b.drop_last(), max_len);
        assert(a[a.len() - 1] == a.last() && b[b.len() - 1] == b.last());
    }
}

/// The marks of a long path are taken off, and nothing else is.
pub proof fn law_long_marks_are_taken_off(path: Seq<char>)
    ensures
        !crate::strings::has_prefix(path, "UNC\\"@) ==> without_long_marks("\\\\?\\"@ + path) == path,
        without_long_marks("\\\\?\\UNC\\"@ + path) == "\\\\"@ + path,
        !crate::strings::has_prefix(path, "\\\\?\\"@) ==> without_long_marks(path) == path,
{
    reveal_strlit("UNC\\");
    reveal_strlit("\\\\?\\");
    reveal_strlit("\\\\?\\UNC\\");
    reveal_strlit("\\\\");
    let marked = "\\\\?\\"@ + path;
    let shared = "\\\\?\\UNC\\"@ + path;
    assert(marked.take(4) =~= "\\\\?\\"@);
    assert(marked.skip(4) =~= path);
    assert(shared.take(8) =~= "\\\\?\\UNC\\"@);
    assert(shared.skip(8) =~= path);
    if crate::strings::has_prefix(marked, "\\\\?\\UNC\\"@) {
        assert(path.take(4) =~= "UNC\\"@) by {
            assert forall|i: int| 0 <= i < 4 implies path.take(4)[i] == "UNC\\"@[i] by {
                assert(marked[4 + i] == marked.take(8)[4 + i]);
                assert(marked[4 + i] == path[i]);
            }
        }
    }
    if crate::strings::has_prefix(path, "\\\\?\\UNC\\"@) {
        assert(path.take(4) =~= "\\\\?\\"@) by {
            assert forall|i: int| 0 <= i < 4 implies path.take(4)[i] == "\\\\?\\"@[i] by {
                assert(path[i] == path.take(8)[i]);
            }
        }
    }
}

/// Two relative paths have one key where they differ in nothing but the kind of their separators.
/// Outside Windows they have one key only then.
pub proof fn law_relative_keys_ignore_the_separator(a: Seq<char>, b: Seq<char>, windows: bool)
    ensures
        ({
            let alike = a.len() == b.len() && forall|i: int|
                0 <= i < a.len() ==> #[trigger] a[i] == b[i] || ((a[i] == '/' || a[i] == '\\') && (b[i]
                    == '/' || b[i] == '\\'));
            &&& alike ==> relative_key(a, windows) == relative_key(b, windows)
            &&& !windows && relative_key(a, windows) == relative_key(b, windows) ==> alike
        }),
{
    let one = exchanged(a, '\\', '/');
    let other = exchanged(b, '\\', '/');
    if a.len() == b.len() && forall|i: int|
        0 <= i < a.len() ==> #[trigger] a[i] == b[i] || ((a[i] == '/' || a[i] == '\\') && (b[i] == '/'
            || b[i] == '\\')) {
        assert(one =~= other);
    }
    if one == other {
        assert(one.len() == a.len() && other.len() == b.len());
        assert forall|i: int| 0 <= i < a.len() implies #[trigger] a[i] == b[i] || ((a[i] == '/' || a[i]
            == '\\') && (b[i] == '/' || b[i] == '\\')) by {
            assert(one[i] == other[i]);
        }
    }
}

/// The main worktree is the one that is listed first.
pub proof fn law_the_first_listed_worktree_is_the_main_one(lines: Seq<Seq<char>>, at: int)
    requires
        0 <= at < lines.len(),
        crate::strings::has_prefix(lines[at], "worktree "@),
        forall|i: int| 0 <= i < at ==> !crate::strings::has_prefix(#[trigger] lines[i], "worktree "@),
    ensures
        first_listed(lines, 0) matches Some(path) && "worktree "@ + path == lines[at],
{
    reveal_strlit("worktree ");
    lemma_first_listed(lines, 0, at);
    assert("worktree "@ + lines[at].skip(9) =~= lines[at]) by {
        assert forall|i: int| 0 <= i < 9 implies lines[at][i] == "worktree "@[i] by {
            assert(lines[at].take(9)[i] == lines[at][i]);
        }
    }
}

proof fn lemma_first_listed(lines: Seq<Seq<char>>, from: int, at: int)
    requires
        0 <= from <= at < lines.len(),
        crate::strings::has_prefix(lines[at], "worktree "@),
        forall|i: int| from <= i < at ==> !crate::strings::has_prefix(#[trigger] lines[i], "worktree "@),
    ensures
        first_listed(lines, from) == Some(lines[at].skip(9)),
    decreases at - from,
{
    if from < at {
        assert(!crate::strings::has_prefix(lines[from], "worktree "@));
        lemma_first_listed(lines, from + 1, at);
    }
}

/// A new branch is taken exactly where it has a trimmed name that Git accepts, where there is a
/// repository, and where Git was asked for the branch and said that there is none.
pub proof fn law_a_branch_is_taken_only_where_it_is_new(
    branch: Seq<char>,
    checked: Result<CommandOutput, Failure>,
    repository: Result<Repository, Failure>,
    shown: Result<CommandOutput, Failure>,
)
    ensures
        branch_refusal(branch, checked, repository, shown) is Ok <==> {
            &&& branch.len() > 0
            &&& crate::strings::trim(branch) == branch
            &&& checked matches Ok(accepted) && accepted.success
            &&& repository is Ok
            &&& shown matches Ok(found) && !found.success && found.code == Some(1i32)
        },
{
}

/// What Git printed counts only where the command succeeded; where it failed, the complaint is what it
/// said, on the one channel or the other.
pub proof fn law_failed_commands_give_no_text(output: CommandOutput, message: Seq<char>)
    ensures
        git_text(Ok(output)) is Ok <==> output.success,
        git_done(Ok(output), message) is Ok <==> output.success,
        output.success ==> git_text(Ok(output)) == Ok::<Seq<char>, Seq<Seq<char>>>(
            crate::strings::trim(crate::strings::lossy_utf8(output.stdout@)),
        ),
        !output.success ==> ({
            let said = crate::strings::trim(crate::strings::lossy_utf8(output.stderr@));
            let other = crate::strings::trim(crate::strings::lossy_utf8(output.stdout@));
            let words = if said == Seq::<char>::empty() {
                other
            } else {
                said
            };
            &&& git_text(Ok(output)) == Err::<Seq<char>, Seq<Seq<char>>>(seq![words])
            &&& git_done(Ok(output), message) == Err::<(), Seq<Seq<char>>>(seq![message + words])
        }),
{
    let said = crate::strings::trim(crate::strings::lossy_utf8(output.stderr@));
    if said.len() == 0 {
        assert(said =~= Seq::<char>::empty());
    }
}

/// A place is refused without a root, and where its path has more than 240 units; and what is given
/// back is no longer than that.
pub proof fn law_worktree_paths_are_short_enough(
    root: Seq<char>,
    repository: Seq<char>,
    common_git_dir: Seq<char>,
    branch: Seq<char>,
    windows: bool,
)
    ensures
        root.len() == 0 ==> worktree_path(root, repository, common_git_dir, branch, windows) is Err,
        worktree_path(root, repository, common_git_dir, branch, windows) matches Ok(path) ==> path.len()
            <= 240,
        root.len() > 0 && worktree_place(root, repository, common_git_dir, branch, windows).len() <= 120
            ==> worktree_path(root, repository, common_git_dir, branch, windows) is Ok,
{
    lemma_units_of_characters(worktree_place(root, repository, common_git_dir, branch, windows));
}

proof fn lemma_units_of_characters(s: Seq<char>)
    ensures
        s.len() <= utf16_len(s) <= 2 * s.len(),
    decreases s.len(),
{
    if s.len() > 0 {
        lemma_units_of_characters(s.drop_last());
    }
}

/// A path is resolved as it was noted first, and stays as it is where nothing was noted of it.
pub proof fn law_paths_are_resolved_as_noted(
    pairs: Seq<(Seq<char>, Seq<char>)>,
    path: Seq<char>,
    from: int,
)
    requires
        0 <= from,
    ensures
        (forall|i: int| from <= i < pairs.len() ==> (#[trigger] pairs[i]).0 != path) ==> resolved_among(
            pairs,
            path,
            from,
        ) == path,
        forall|at: int|
            from <= at < pairs.len() && (#[trigger] pairs[at]).0 == path && (forall|i: int|
                from <= i < at ==> (#[trigger] pairs[i]).0 != path) ==> resolved_among(pairs, path, from)
                == pairs[at].1,
    decreases pairs.len() - from,
{
    if from < pairs.len() {
        if pairs[from].0 != path {
            law_paths_are_resolved_as_noted(pairs, path, from + 1);
        }
    }
}

/// A repository is known where Git said all that is asked of it: its main worktree is the first that is
/// listed, and its shared directory is taken from the top of the worktree that was asked.
pub proof fn law_repositories_are_known_by_git(
    path: Seq<char>,
    top: Result<CommandOutput, Failure>,
    common: Result<CommandOutput, Failure>,
    list: Result<CommandOutput, Failure>,
    paths: ResolvedPaths,
)
    ensures
        repository_of(path, top, common, list, paths) is Ok <==> (top matches Ok(a) && a.success) && (
        common matches Ok(b) && b.success) && (list matches Ok(c) && c.success),
        repository_of(path, top, common, list, paths) matches Ok((main, shared)) ==> {
            let here = paths.resolved(printed(top->Ok_0.stdout@));
            let told = printed(common->Ok_0.stdout@);
            let listed = first_listed(crate::strings::lines(printed(list->Ok_0.stdout@)), 0);
            &&& main == paths.resolved(
                if listed is Some {
                    listed->0
                } else {
                    here
                },
            )
            &&& crate::paths::absolute(told, paths.windows) ==> shared == paths.resolved(told)
            &&& !crate::paths::absolute(told, paths.windows) ==> shared == paths.resolved(
                crate::paths::joined(here, told, paths.windows),
            )
        },
{
}

} // verus!
