//! Files that Git ignores and that a worktree gets all the same, by the patterns in
//! `.worktreeinclude`.

use super::registry::{is_among, IncludedFileState, ManagedWorktree};
use super::worktree::{command_error, relative_path_key, CommandOutput, Failure};
use crate::hashing::{hex_text, sha256_digest};
use crate::paths::{is_safe_relative_path, join_path};
use crate::strings::{
    append_text, chars_of, lines_of, nul_pieces_of, same_text, text_between, utf8_problem,
    utf8_text,
};
use vstd::prelude::*;

verus! {

/// The `GitignoreBuilder` of the `ignore` crate: patterns that are being gathered.
#[verifier::external_type_specification]
#[verifier::external_body]
pub struct ExGitignoreBuilder(ignore::gitignore::GitignoreBuilder);

/// The `Gitignore` of the `ignore` crate: patterns that paths are matched against.
#[verifier::external_type_specification]
#[verifier::external_body]
pub struct ExGitignore(ignore::gitignore::Gitignore);

/// The lines that were added to gathered patterns.
pub uninterp spec fn gathered_lines(builder: ignore::gitignore::GitignoreBuilder) -> Seq<Seq<char>>;

/// The lines that patterns were made of.
pub uninterp spec fn matcher_lines(matcher: ignore::gitignore::Gitignore) -> Seq<Seq<char>>;

/// What is wrong with a line as a pattern.
pub uninterp spec fn line_problem(line: Seq<char>) -> Option<Seq<char>>;

/// What is wrong with lines taken together.
pub uninterp spec fn lines_problem(lines: Seq<Seq<char>>) -> Option<Seq<char>>;

/// Whether the patterns in lines take a file in: it, or a directory it lies in, matches a pattern,
/// and the last pattern that it matches does not take it out again. The system that the program was
/// built for has a say in this: on Windows a backslash in front of two asterisks separates components.
pub uninterp spec fn lines_match(lines: Seq<Seq<char>>, path: Seq<char>) -> bool;

/// `GitignoreBuilder::new` of the `ignore` crate: patterns without a line, for paths that are seen from
/// the directory the patterns belong to.
#[verifier::external_body]
fn gather_patterns() -> (builder: ignore::gitignore::GitignoreBuilder)
    ensures
        gathered_lines(builder) == Seq::<Seq<char>>::empty(),
{
    ignore::gitignore::GitignoreBuilder::new("")
}

/// How deep the braces of a line may be nested.
pub const MAX_OPEN_BRACES: usize = 500;

/// How many braces may stand open behind a line. Every opening one counts. A closing one counts only
/// where nothing can take its meaning: no backslash stands in front of it, and no bracket anywhere
/// before it.
pub open spec fn open_braces(line: Seq<char>) -> nat
    decreases line.len(),
{
    if line.len() == 0 {
        0
    } else {
        let before = open_braces(line.drop_last());
        let escaped = line.len() >= 2 && line[line.len() - 2] == '\\';
        if line.last() == '{' {
            before + 1
        } else if line.last() == '}' && before > 0 && !escaped && !line.contains('[') {
            (before - 1) as nat
        } else {
            before
        }
    }
}

/// How many braces may stand open anywhere in a line.
pub open spec fn deepest_braces(line: Seq<char>) -> nat
    decreases line.len(),
{
    if line.len() == 0 {
        0
    } else if open_braces(line) > deepest_braces(line.drop_last()) {
        open_braces(line)
    } else {
        deepest_braces(line.drop_last())
    }
}

/// Whether a line nests its braces too deeply for a pattern. A comment is no pattern.
pub open spec fn too_deep(line: Seq<char>) -> bool {
    !crate::strings::has_prefix(line, "#"@) && deepest_braces(line) > MAX_OPEN_BRACES
}

fn is_too_deep(line: &str) -> (r: bool)
    ensures
        r == too_deep(line@),
{
    if crate::strings::starts_with_text(line, "#") {
        return false;
    }
    let chars = chars_of(line);
    let mut open: usize = 0;
    let mut deepest: usize = 0;
    let mut bracket = false;
    let mut i: usize = 0;
    assert(line@.take(0).len() == 0);
    while i < chars.len()
        invariant
            i <= chars@.len(),
            chars@ == line@,
            open <= i,
            deepest <= i,
            open == open_braces(line@.take(i as int)),
            deepest == deepest_braces(line@.take(i as int)),
            bracket == line@.take(i as int).contains('['),
        decreases chars@.len() - i,
    {
        let c = chars[i];
        let escaped = i > 0 && chars[i - 1] == '\\';
        let ghost whole = line@.take(i + 1);
        proof {
            assert(whole.drop_last() =~= line@.take(i as int));
            assert(whole.last() == c);
            if bracket {
                let k = choose|k: int| 0 <= k < i && line@.take(i as int)[k] == '[';
                assert(whole[k] == '[');
            }
            if c == '[' {
                assert(whole[i as int] == '[');
            }
            if whole.contains('[') && c != '[' {
                let k = choose|k: int| 0 <= k < whole.len() && whole[k] == '[';
                assert(line@.take(i as int)[k] == '[');
            }
        }
        if c == '[' {
            bracket = true;
        } else if c == '{' {
            open = open + 1;
        } else if c == '}' && open > 0 && !escaped && !bracket {
            open = open - 1;
        }
        if open > deepest {
            deepest = open;
        }
        i = i + 1;
    }
    assert(line@.take(i as int) =~= line@);
    deepest > MAX_OPEN_BRACES
}

/// `GitignoreBuilder::add_line` of the `ignore` crate: whether a line is a pattern depends on the line
/// alone. One that is not leaves the patterns as they were. The file a line comes from is kept for
/// messages, and changes nothing. Which lines are patterns stays unsaid. The call descends once for
/// each brace that stands open, so that deep nesting would exhaust the stack.
#[verifier::external_body]
fn add_pattern(
    builder: &mut ignore::gitignore::GitignoreBuilder,
    include_path: &str,
    line: &str,
) -> (r: Result<(), String>)
    requires
        !too_deep(line@),
    ensures
        match r {
            Ok(_) => line_problem(line@) is None && gathered_lines(*final(builder))
                == gathered_lines(*old(builder)).push(line@),
            Err(problem) => line_problem(line@) == Some(problem@) && gathered_lines(*final(builder))
                == gathered_lines(*old(builder)),
        },
{
    builder.add_line(Some(include_path.into()), line).map(|_| ()).map_err(|error| error.to_string())
}

/// `GitignoreBuilder::build` of the `ignore` crate: whether patterns can be put together depends on
/// their lines alone, and so does what is made of them. Which lines cannot stays unsaid.
#[verifier::external_body]
fn put_together(builder: &ignore::gitignore::GitignoreBuilder) -> (r: Result<
    ignore::gitignore::Gitignore,
    String,
>)
    ensures
        match r {
            Ok(matcher) => lines_problem(gathered_lines(*builder)) is None && matcher_lines(matcher)
                == gathered_lines(*builder),
            Err(problem) => lines_problem(gathered_lines(*builder)) == Some(problem@),
        },
{
    builder.build().map_err(|error| error.to_string())
}

/// Whether a path can be handed to patterns: it has no root, not even once the dot that it begins with
/// is dropped. On Windows it is written with slashes, begins with no dot component, and has no root
/// behind a drive.
pub open spec fn matchable(path: Seq<char>, windows: bool) -> bool {
    &&& !crate::strings::has_prefix(path, "/"@)
    &&& !crate::strings::has_prefix(path, ".//"@)
    &&& windows ==> !crate::strings::has_prefix(path, "./"@) && !path.contains('\\') && !(
    crate::paths::has_drive(path, windows) && path.len() > 2 && path[2] == '/')
}

fn is_matchable(path: &str, windows: bool) -> (r: bool)
    ensures
        r == matchable(path@, windows),
{
    if crate::strings::starts_with_text(path, "/") || crate::strings::starts_with_text(path, ".//") {
        return false;
    }
    if !windows {
        return true;
    }
    let chars = chars_of(path);
    let mut i: usize = 0;
    while i < chars.len()
        invariant
            i <= chars@.len(),
            chars@ == path@,
            windows,
            forall|j: int| 0 <= j < i ==> chars@[j] != '\\',
        decreases chars@.len() - i,
    {
        if chars[i] == '\\' {
            return false;
        }
        i = i + 1;
    }
    let rooted_drive = chars.len() > 2 && chars[1] == ':' && (('a' <= chars[0] && chars[0] <= 'z')
        || ('A' <= chars[0] && chars[0] <= 'Z')) && chars[2] == '/';
    !crate::strings::starts_with_text(path, "./") && !rooted_drive
}

/// `Gitignore::matched_path_or_any_parents` of the `ignore` crate, for a file, and whether that says
/// to ignore it: this depends on the lines of the patterns and on the path alone. Which paths are
/// matched stays unsaid. `windows` is whether the program runs on Windows, where a backslash
/// separates components.
#[verifier::external_body]
fn pattern_matches(matcher: &ignore::gitignore::Gitignore, path: &str, windows: bool) -> (r: bool)
    requires
        matchable(path@, windows),
    ensures
        r == lines_match(matcher_lines(*matcher), path@),
{
    matcher.matched_path_or_any_parents(path, false).is_ignore()
}

/// What is wrong with the patterns of a file, from a line on.
pub open spec fn pattern_problem(
    include_path: Seq<char>,
    lines: Seq<Seq<char>>,
    from: int,
) -> Option<Seq<Seq<char>>>
    decreases lines.len() - from,
{
    if from < 0 || from >= lines.len() {
        match lines_problem(lines) {
            Some(problem) => Some(
                seq!["Failed to build .worktreeinclude matcher for "@ + include_path, problem],
            ),
            None => None,
        }
    } else if too_deep(lines[from]) {
        Some(
            seq![
                "Failed to parse .worktreeinclude at "@ + include_path,
                "braces are nested too deeply"@,
            ],
        )
    } else {
        match line_problem(lines[from]) {
            Some(problem) => Some(
                seq!["Failed to parse .worktreeinclude at "@ + include_path, problem],
            ),
            None => pattern_problem(include_path, lines, from + 1),
        }
    }
}

fn failure_from(message: &str, path: &str, problem: String) -> (failure: Failure)
    ensures
        failure@ == seq![message@ + path@, problem@],
{
    let mut text = message.to_owned();
    append_text(&mut text, path);
    let failure = Failure::of(problem).context(text);
    assert(failure@ =~= seq![message@ + path@, problem@]);
    failure
}

/// Puts the patterns of a file together.
fn build_include_matcher(include_path: &str, patterns: &str) -> (r: Result<
    ignore::gitignore::Gitignore,
    Failure,
>)
    ensures
        match r {
            Ok(matcher) => pattern_problem(include_path@, crate::strings::lines(patterns@), 0) is None
                && matcher_lines(matcher) == crate::strings::lines(patterns@),
            Err(failure) => pattern_problem(include_path@, crate::strings::lines(patterns@), 0)
                == Some(failure@),
        },
{
    let lines = lines_of(&chars_of(patterns));
    let ghost views = crate::strings::text_views(lines@);
    let mut builder = gather_patterns();
    let mut i: usize = 0;
    assert(views.take(0) == Seq::<Seq<char>>::empty());
    while i < lines.len()
        invariant
            i <= lines@.len(),
            views == crate::strings::text_views(lines@),
            views == crate::strings::lines(patterns@),
            gathered_lines(builder) == views.take(i as int),
            pattern_problem(include_path@, views, 0) == pattern_problem(
                include_path@,
                views,
                i as int,
            ),
        decreases lines@.len() - i,
    {
        assert(views[i as int] == lines@[i as int]@);
        assert(views.take(i + 1) == views.take(i as int).push(views[i as int]));
        if is_too_deep(lines[i].as_str()) {
            return Err(
                failure_from(
                    "Failed to parse .worktreeinclude at ",
                    include_path,
                    "braces are nested too deeply".to_owned(),
                ),
            );
        }
        if let Err(problem) = add_pattern(&mut builder, include_path, lines[i].as_str()) {
            return Err(failure_from("Failed to parse .worktreeinclude at ", include_path, problem));
        }
        i = i + 1;
    }
    assert(views.take(i as int) == views);
    match put_together(&builder) {
        Ok(matcher) => Ok(matcher),
        Err(problem) => Err(
            failure_from("Failed to build .worktreeinclude matcher for ", include_path, problem),
        ),
    }
}

/// A text without the slashes that it begins with.
pub open spec fn without_slashes(s: Seq<char>) -> Seq<char>
    decreases s.len(),
{
    if s.len() > 0 && s[0] == '/' {
        without_slashes(s.skip(1))
    } else {
        s
    }
}

/// A path with slashes without the dot components that it begins with.
pub open spec fn undotted(path: Seq<char>) -> Seq<char>
    decreases path.len(),
    via undotted_goes_on
{
    if path.len() >= 2 && path[0] == '.' && path[1] == '/' {
        undotted(without_slashes(path.skip(1)))
    } else {
        path
    }
}

#[via_fn]
proof fn undotted_goes_on(path: Seq<char>) {
    lemma_without_slashes(path.skip(1));
}

proof fn lemma_without_slashes(s: Seq<char>)
    ensures
        without_slashes(s).len() <= s.len(),
    decreases s.len(),
{
    if s.len() > 0 && s[0] == '/' {
        lemma_without_slashes(s.skip(1));
    }
}

/// A relative path in the form that patterns are held against: on Windows with slashes between its
/// components, and without the dot components that it begins with.
pub open spec fn matched_form(path: Seq<char>, windows: bool) -> Seq<char> {
    if windows {
        undotted(super::worktree::exchanged(path, '\\', '/'))
    } else {
        path
    }
}

/// Whether the patterns in lines take a relative path in. One that has a root in the form they are held
/// against is never taken in.
pub open spec fn taken_in(lines: Seq<Seq<char>>, path: Seq<char>, windows: bool) -> bool {
    let form = matched_form(path, windows);
    matchable(form, windows) && lines_match(lines, form)
}

fn is_taken_in(matcher: &ignore::gitignore::Gitignore, path: &str, windows: bool) -> (r: bool)
    ensures
        r == taken_in(matcher_lines(*matcher), path@, windows),
{
    let form = slashed(path, windows);
    is_matchable(form.as_str(), windows) && pattern_matches(matcher, form.as_str(), windows)
}

fn slashed(path: &str, windows: bool) -> (form: String)
    ensures
        form@ == matched_form(path@, windows),
{
    if !windows {
        return path.to_owned();
    }
    let mut chars = chars_of(path);
    let count: usize = chars.len();
    let ghost goal = super::worktree::exchanged(path@, '\\', '/');
    let mut i: usize = 0;
    while i < count
        invariant
            i <= count,
            count == path@.len(),
            chars@.len() == count,
            goal == super::worktree::exchanged(path@, '\\', '/'),
            forall|j: int| 0 <= j < i ==> #[trigger] chars@[j] == goal[j],
            forall|j: int| i <= j < count ==> #[trigger] chars@[j] == path@[j],
        decreases count - i,
    {
        if chars[i] == '\\' {
            chars.set(i, '/');
        }
        i = i + 1;
    }
    assert(chars@ =~= goal);
    let start = dots_end(&chars);
    text_between(&chars, start, count)
}

/// Where the slashes at a position end.
fn slashes_end(chars: &Vec<char>, from: usize) -> (end: usize)
    requires
        from <= chars@.len(),
    ensures
        from <= end <= chars@.len(),
        chars@.skip(end as int) == without_slashes(chars@.skip(from as int)),
{
    let mut end: usize = from;
    while end < chars.len() && chars[end] == '/'
        invariant
            from <= end <= chars@.len(),
            without_slashes(chars@.skip(end as int)) == without_slashes(chars@.skip(from as int)),
        decreases chars@.len() - end,
    {
        assert(chars@.skip(end as int).skip(1) =~= chars@.skip(end + 1));
        end = end + 1;
    }
    end
}

/// Where a path with slashes begins behind the dot components that it begins with.
fn dots_end(chars: &Vec<char>) -> (start: usize)
    ensures
        start <= chars@.len(),
        chars@.skip(start as int) == undotted(chars@),
{
    let count: usize = chars.len();
    let mut start: usize = 0;
    assert(chars@.skip(0) =~= chars@);
    while count - start >= 2 && chars[start] == '.' && chars[start + 1] == '/'
        invariant
            start <= count,
            count == chars@.len(),
            undotted(chars@.skip(start as int)) == undotted(chars@),
        decreases count - start,
    {
        let next = slashes_end(chars, start + 1);
        assert(chars@.skip(start as int).skip(1) =~= chars@.skip(start + 1));
        start = next;
    }
    start
}

/// The first of some pieces that is not valid UTF-8, from one on, or the end.
pub open spec fn first_invalid(pieces: Seq<Seq<u8>>, from: int) -> int
    decreases pieces.len() - from,
{
    if 0 <= from < pieces.len() && vstd::utf8::valid_utf8(pieces[from]) {
        first_invalid(pieces, from + 1)
    } else {
        from
    }
}

/// The paths that Git printed with zero bytes behind them.
pub open spec fn printed_paths(bytes: Seq<u8>) -> Result<Seq<Seq<char>>, Seq<Seq<char>>> {
    let pieces = crate::strings::nul_pieces(bytes);
    let invalid = first_invalid(pieces, 0);
    if invalid < pieces.len() {
        Err(seq!["Git returned a non-UTF-8 file path"@, utf8_problem(pieces[invalid])])
    } else {
        Ok(pieces.map_values(|p: Seq<u8>| vstd::utf8::decode_utf8(p)))
    }
}

fn invalid_path(message: &str, problem: String) -> (failure: Failure)
    ensures
        failure@ == seq![message@, problem@],
{
    let failure = Failure::of(problem).context(message.to_owned());
    assert(failure@ =~= seq![message@, problem@]);
    failure
}

/// The paths that Git printed with zero bytes behind them.
pub fn nul_paths(output: &Vec<u8>) -> (r: Result<Vec<String>, Failure>)
    ensures
        match r {
            Ok(paths) => printed_paths(output@) == Ok::<Seq<Seq<char>>, Seq<Seq<char>>>(
                crate::strings::text_views(paths@),
            ),
            Err(failure) => printed_paths(output@) == Err::<Seq<Seq<char>>, Seq<Seq<char>>>(
                failure@,
            ),
        },
{
    let mut pieces = nul_pieces_of(output);
    let ghost views = crate::strings::piece_views(pieces@);
    let ghost all = pieces@;
    let mut paths: Vec<String> = Vec::new();
    let ghost mut done: int = 0;
    assert(all.skip(0) == all);
    assert(crate::strings::text_views(paths@) =~= Seq::<Seq<char>>::empty());
    while pieces.len() > 0
        invariant
            0 <= done <= all.len(),
            pieces@ == all.skip(done),
            views == crate::strings::piece_views(all),
            views == crate::strings::nul_pieces(output@),
            first_invalid(views, 0) == first_invalid(views, done),
            crate::strings::text_views(paths@) == views.take(done).map_values(
                |p: Seq<u8>| vstd::utf8::decode_utf8(p),
            ),
        decreases pieces@.len(),
    {
        let piece = pieces.remove(0);
        proof {
            assert(piece == all[done]);
            assert(views[done] == piece@);
            assert(pieces@ == all.skip(done + 1));
        }
        match utf8_text(&piece) {
            Err(problem) => {
                return Err(invalid_path("Git returned a non-UTF-8 file path", problem));
            },
            Ok(path) => {
                proof {
                    crate::strings::lemma_text_views_push(paths@, path);
                }
                paths.push(path);
                proof {
                    let decode = |p: Seq<u8>| vstd::utf8::decode_utf8(p);
                    assert(views.take(done + 1) =~= views.take(done).push(views[done]));
                    assert(views.take(done + 1).map_values(decode) =~= views.take(done).map_values(
                        decode,
                    ).push(decode(views[done])));
                    done = done + 1;
                }
            },
        }
    }
    assert(views.take(done) == views);
    Ok(paths)
}

/// The paths that patterns take in among the pieces that Git printed, from one on, and why the search
/// stopped before the end.
pub open spec fn scanned(
    lines: Seq<Seq<char>>,
    pieces: Seq<Seq<u8>>,
    from: int,
    windows: bool,
) -> (Seq<Seq<char>>, Option<Seq<Seq<char>>>)
    decreases pieces.len() - from,
{
    if from < 0 || from >= pieces.len() {
        (Seq::empty(), None)
    } else if !vstd::utf8::valid_utf8(pieces[from]) {
        (
            Seq::empty(),
            Some(
                seq!["Git returned a non-UTF-8 ignored file path"@, utf8_problem(pieces[from])],
            ),
        )
    } else {
        let path = vstd::utf8::decode_utf8(pieces[from]);
        if !crate::paths::safe_relative(path, windows) {
            (Seq::empty(), Some(seq!["Git returned an unsafe ignored path: "@ + path]))
        } else {
            let rest = scanned(lines, pieces, from + 1, windows);
            if taken_in(lines, path, windows) {
                (seq![path] + rest.0, rest.1)
            } else {
                rest
            }
        }
    }
}

/// What a search for files to copy found: the files that Git tracks in the worktree, by their keys;
/// the paths that the patterns take in; and why the search stopped, where it did.
pub struct IncludeScan {
    pub in_git: Vec<String>,
    pub matched: Vec<String>,
    pub stopped: Option<Failure>,
}

/// The keys of paths.
pub open spec fn keys_of(paths: Seq<Seq<char>>, windows: bool) -> Seq<Seq<char>> {
    paths.map_values(|p: Seq<char>| super::worktree::relative_key(p, windows))
}

fn key_list(paths: &Vec<String>, windows: bool) -> (keys: Vec<String>)
    ensures
        crate::strings::text_views(keys@) == keys_of(
            crate::strings::text_views(paths@),
            windows,
        ),
{
    let ghost views = crate::strings::text_views(paths@);
    let mut keys: Vec<String> = Vec::new();
    let mut i: usize = 0;
    assert(crate::strings::text_views(keys@) =~= Seq::<Seq<char>>::empty());
    while i < paths.len()
        invariant
            i <= paths@.len(),
            views == crate::strings::text_views(paths@),
            crate::strings::text_views(keys@) == keys_of(views, windows).take(i as int),
        decreases paths@.len() - i,
    {
        assert(views[i as int] == paths@[i as int]@);
        let key = relative_path_key(paths[i].as_str(), windows);
        proof {
            crate::strings::lemma_text_views_push(keys@, key);
            assert(keys_of(views, windows).take(i + 1) =~= keys_of(views, windows).take(
                i as int,
            ).push(key@));
        }
        keys.push(key);
        i = i + 1;
    }
    assert(keys_of(views, windows).take(i as int) == keys_of(views, windows));
    keys
}

/// The keys of the paths that Git printed.
pub open spec fn printed_keys(bytes: Seq<u8>, windows: bool) -> Result<
    Seq<Seq<char>>,
    Seq<Seq<char>>,
> {
    match printed_paths(bytes) {
        Ok(paths) => Ok(keys_of(paths, windows)),
        Err(failure) => Err(failure),
    }
}

fn printed_key_list(bytes: &Vec<u8>, windows: bool) -> (r: Result<Vec<String>, Failure>)
    ensures
        match r {
            Ok(keys) => printed_keys(bytes@, windows) == Ok::<Seq<Seq<char>>, Seq<Seq<char>>>(
                crate::strings::text_views(keys@),
            ),
            Err(failure) => printed_keys(bytes@, windows) == Err::<Seq<Seq<char>>, Seq<Seq<char>>>(
                failure@,
            ),
        },
{
    match nul_paths(bytes) {
        Ok(paths) => Ok(key_list(&paths, windows)),
        Err(failure) => Err(failure),
    }
}

/// What a run of Git printed, where it succeeded; where it did not, a message before what it said.
pub open spec fn git_bytes(outcome: Result<CommandOutput, Failure>, message: Seq<char>) -> Result<
    Seq<u8>,
    Seq<Seq<char>>,
> {
    match outcome {
        Err(failure) => Err(failure@),
        Ok(output) => if output.success {
            Ok(output.stdout@)
        } else {
            Err(seq![message + super::worktree::complaint(output)])
        },
    }
}

fn git_printed<'a>(outcome: &'a Result<CommandOutput, Failure>, message: &str) -> (r: Result<
    &'a Vec<u8>,
    Failure,
>)
    ensures
        match r {
            Ok(bytes) => git_bytes(*outcome, message@) == Ok::<Seq<u8>, Seq<Seq<char>>>(bytes@),
            Err(failure) => git_bytes(*outcome, message@) == Err::<Seq<u8>, Seq<Seq<char>>>(
                failure@,
            ),
        },
{
    match outcome {
        Err(failure) => Err(failure.clone()),
        Ok(output) => {
            if output.success {
                Ok(&output.stdout)
            } else {
                let mut text = message.to_owned();
                append_text(&mut text, command_error(output).as_str());
                Err(Failure::of(text))
            }
        },
    }
}

/// What a search for files to copy finds.
pub open spec fn include_scan(
    include_path: Seq<char>,
    patterns: Seq<char>,
    ignored: Result<CommandOutput, Failure>,
    in_git: Result<CommandOutput, Failure>,
    windows: bool,
) -> Result<(Seq<Seq<char>>, Seq<Seq<char>>, Option<Seq<Seq<char>>>), Seq<Seq<char>>> {
    let lines = crate::strings::lines(patterns);
    match pattern_problem(include_path, lines, 0) {
        Some(failure) => Err(failure),
        None => match git_bytes(ignored, "Failed to enumerate gitignored files: "@) {
            Err(failure) => Err(failure),
            Ok(ignored_bytes) => match git_bytes(
                in_git,
                "Failed to enumerate tracked target files: "@,
            ) {
                Err(failure) => Err(failure),
                Ok(tracked_bytes) => match printed_keys(tracked_bytes, windows) {
                    Err(failure) => Err(failure),
                    Ok(keys) => {
                        let found = scanned(
                            lines,
                            crate::strings::nul_pieces(ignored_bytes),
                            0,
                            windows,
                        );
                        Ok((keys, found.0, found.1))
                    },
                },
            },
        },
    }
}

/// A failure that may be absent, by its view.
pub open spec fn failure_view(failure: Option<Failure>) -> Option<Seq<Seq<char>>> {
    match failure {
        Some(f) => Some(f@),
        None => None,
    }
}

fn scan_pieces(matcher: &ignore::gitignore::Gitignore, bytes: &Vec<u8>, windows: bool) -> (r: (
    Vec<String>,
    Option<Failure>,
))
    ensures
        (crate::strings::text_views(r.0@), failure_view(r.1)) == scanned(
            matcher_lines(*matcher),
            crate::strings::nul_pieces(bytes@),
            0,
            windows,
        ),
{
    let mut pieces = nul_pieces_of(bytes);
    let ghost lines = matcher_lines(*matcher);
    let ghost all = pieces@;
    let ghost views = crate::strings::piece_views(pieces@);
    let ghost goal = scanned(lines, views, 0, windows);
    let mut matched: Vec<String> = Vec::new();
    let ghost mut done: int = 0;
    assert(all.skip(0) == all);
    assert(crate::strings::text_views(matched@) + goal.0 =~= goal.0);
    while pieces.len() > 0
        invariant
            0 <= done <= all.len(),
            pieces@ == all.skip(done),
            views == crate::strings::piece_views(all),
            views == crate::strings::nul_pieces(bytes@),
            lines == matcher_lines(*matcher),
            goal == scanned(lines, views, 0, windows),
            goal.0 == crate::strings::text_views(matched@) + scanned(
                lines,
                views,
                done,
                windows,
            ).0,
            goal.1 == scanned(lines, views, done, windows).1,
        decreases pieces@.len(),
    {
        let piece = pieces.remove(0);
        let ghost before = crate::strings::text_views(matched@);
        proof {
            assert(piece == all[done]);
            assert(views[done] == piece@);
            assert(pieces@ == all.skip(done + 1));
        }
        match utf8_text(&piece) {
            Err(problem) => {
                assert(before + Seq::<Seq<char>>::empty() =~= before);
                return (
                    matched,
                    Some(invalid_path("Git returned a non-UTF-8 ignored file path", problem)),
                );
            },
            Ok(path) => {
                if !is_safe_relative_path(path.as_str(), windows) {
                    let mut text = "Git returned an unsafe ignored path: ".to_owned();
                    append_text(&mut text, path.as_str());
                    assert(before + Seq::<Seq<char>>::empty() =~= before);
                    return (matched, Some(Failure::of(text)));
                }
                if is_taken_in(matcher, path.as_str(), windows) {
                    proof {
                        crate::strings::lemma_text_views_push(matched@, path);
                        let rest = scanned(lines, views, done + 1, windows).0;
                        assert(before.push(path@) + rest =~= before + (seq![path@] + rest));
                    }
                    matched.push(path);
                }
            },
        }
        proof {
            done = done + 1;
        }
    }
    proof {
        let left = crate::strings::text_views(matched@);
        assert(left + Seq::<Seq<char>>::empty() =~= left);
    }
    (matched, None)
}

/// Searches for the files that a worktree gets: those that Git ignores and that the patterns take in.
/// `ignored` is what Git printed of the ignored files of the repository, and `in_git` of those it
/// tracks in the worktree.
pub fn scan_includes(
    include_path: &str,
    patterns: &str,
    ignored: &Result<CommandOutput, Failure>,
    in_git: &Result<CommandOutput, Failure>,
    windows: bool,
) -> (r: Result<IncludeScan, Failure>)
    ensures
        match r {
            Ok(scan) => include_scan(include_path@, patterns@, *ignored, *in_git, windows) == Ok::<
                (Seq<Seq<char>>, Seq<Seq<char>>, Option<Seq<Seq<char>>>),
                Seq<Seq<char>>,
            >(
                (
                    crate::strings::text_views(scan.in_git@),
                    crate::strings::text_views(scan.matched@),
                    failure_view(scan.stopped),
                ),
            ),
            Err(failure) => include_scan(include_path@, patterns@, *ignored, *in_git, windows)
                == Err::<
                (Seq<Seq<char>>, Seq<Seq<char>>, Option<Seq<Seq<char>>>),
                Seq<Seq<char>>,
            >(failure@),
        },
{
    let matcher = match build_include_matcher(include_path, patterns) {
        Ok(matcher) => matcher,
        Err(failure) => return Err(failure),
    };
    let ignored_bytes = match git_printed(ignored, "Failed to enumerate gitignored files: ") {
        Ok(bytes) => bytes,
        Err(failure) => return Err(failure),
    };
    let tracked_bytes = match git_printed(in_git, "Failed to enumerate tracked target files: ") {
        Ok(bytes) => bytes,
        Err(failure) => return Err(failure),
    };
    let keys = match printed_key_list(tracked_bytes, windows) {
        Ok(keys) => keys,
        Err(failure) => return Err(failure),
    };
    let (matched, stopped) = scan_pieces(&matcher, ignored_bytes, windows);
    Ok(IncludeScan { in_git: keys, matched, stopped })
}

/// A file to copy into a worktree.
#[derive(Debug)]
pub struct IncludeCopy {
    pub relative: String,
    pub source: String,
    pub destination: String,
}

/// The files to copy, from one of the found paths on. `files` are the paths that are files in the
/// repository, and `existing` those at which the worktree has something already. Nothing is copied
/// over what Git tracks, and nothing over what is there.
pub open spec fn planned(
    matched: Seq<Seq<char>>,
    from: int,
    in_git: Seq<Seq<char>>,
    stopped: Option<Seq<Seq<char>>>,
    files: Seq<Seq<char>>,
    existing: Seq<Seq<char>>,
    worktree: Seq<char>,
    windows: bool,
) -> Result<Seq<Seq<char>>, Seq<Seq<char>>>
    decreases matched.len() - from,
{
    if from < 0 || from >= matched.len() {
        match stopped {
            Some(failure) => Err(failure),
            None => Ok(Seq::empty()),
        }
    } else {
        let path = matched[from];
        let rest = planned(
            matched,
            from + 1,
            in_git,
            stopped,
            files,
            existing,
            worktree,
            windows,
        );
        if !files.contains(path) {
            rest
        } else if in_git.contains(super::worktree::relative_key(path, windows)) {
            Err(
                seq![
                    "Refusing to overwrite tracked target file from .worktreeinclude: "@ + path,
                ],
            )
        } else if existing.contains(path) {
            Err(
                seq![
                    "Refusing to overwrite existing target file from .worktreeinclude: "@
                        + crate::paths::joined(worktree, path, windows),
                ],
            )
        } else {
            match rest {
                Ok(paths) => Ok(seq![path] + paths),
                Err(failure) => Err(failure),
            }
        }
    }
}

/// Whether files are those to copy for paths.
pub open spec fn copies_for(
    copies: Seq<IncludeCopy>,
    paths: Seq<Seq<char>>,
    source_repository: Seq<char>,
    worktree: Seq<char>,
    windows: bool,
) -> bool {
    &&& copies.len() == paths.len()
    &&& forall|i: int|
        0 <= i < paths.len() ==> (#[trigger] copies[i]).relative@ == paths[i]
            && copies[i].source@ == crate::paths::joined(source_repository, paths[i], windows)
            && copies[i].destination@ == crate::paths::joined(worktree, paths[i], windows)
}

/// Decides which files are copied into a worktree. All is decided before anything is copied.
pub fn copy_worktree_includes(
    scan: &IncludeScan,
    files: &Vec<String>,
    existing: &Vec<String>,
    source_repository: &str,
    worktree: &str,
    windows: bool,
) -> (r: Result<Vec<IncludeCopy>, Failure>)
    ensures
        ({
            let plan = planned(
                crate::strings::text_views(scan.matched@),
                0,
                crate::strings::text_views(scan.in_git@),
                failure_view(scan.stopped),
                crate::strings::text_views(files@),
                crate::strings::text_views(existing@),
                worktree@,
                windows,
            );
            match r {
                Ok(copies) => plan matches Ok(paths) && copies_for(
                    copies@,
                    paths,
                    source_repository@,
                    worktree@,
                    windows,
                ),
                Err(failure) => plan == Err::<Seq<Seq<char>>, Seq<Seq<char>>>(failure@),
            }
        }),
{
    let ghost matched = crate::strings::text_views(scan.matched@);
    let ghost in_git = crate::strings::text_views(scan.in_git@);
    let ghost stopped = failure_view(scan.stopped);
    let ghost present = crate::strings::text_views(files@);
    let ghost there = crate::strings::text_views(existing@);
    let ghost goal = planned(matched, 0, in_git, stopped, present, there, worktree@, windows);
    let mut copies: Vec<IncludeCopy> = Vec::new();
    let ghost mut chosen: Seq<Seq<char>> = Seq::empty();
    let mut i: usize = 0;
    while i < scan.matched.len()
        invariant
            i <= scan.matched@.len(),
            matched == crate::strings::text_views(scan.matched@),
            in_git == crate::strings::text_views(scan.in_git@),
            stopped == failure_view(scan.stopped),
            present == crate::strings::text_views(files@),
            there == crate::strings::text_views(existing@),
            copies_for(copies@, chosen, source_repository@, worktree@, windows),
            goal == planned(matched, 0, in_git, stopped, present, there, worktree@, windows),
            match planned(
                matched,
                i as int,
                in_git,
                stopped,
                present,
                there,
                worktree@,
                windows,
            ) {
                Ok(rest) => goal == Ok::<Seq<Seq<char>>, Seq<Seq<char>>>(chosen + rest),
                Err(failure) => goal == Err::<Seq<Seq<char>>, Seq<Seq<char>>>(failure),
            },
        decreases scan.matched@.len() - i,
    {
        let path = scan.matched[i].as_str();
        assert(matched[i as int] == path@);
        if is_among(files, path) {
            let key = relative_path_key(path, windows);
            if is_among(&scan.in_git, key.as_str()) {
                let mut text =
                    "Refusing to overwrite tracked target file from .worktreeinclude: ".to_owned();
                append_text(&mut text, path);
                return Err(Failure::of(text));
            }
            let destination = join_path(worktree, path, windows);
            if is_among(existing, path) {
                let mut text =
                    "Refusing to overwrite existing target file from .worktreeinclude: ".to_owned();
                append_text(&mut text, destination.as_str());
                return Err(Failure::of(text));
            }
            copies.push(
                IncludeCopy {
                    relative: path.to_owned(),
                    source: join_path(source_repository, path, windows),
                    destination,
                },
            );
            proof {
                let before = chosen;
                chosen = chosen.push(path@);
                if let Ok(rest) = planned(
                    matched,
                    i + 1,
                    in_git,
                    stopped,
                    present,
                    there,
                    worktree@,
                    windows,
                ) {
                    assert(before + (seq![path@] + rest) =~= chosen + rest);
                }
            }
        }
        i = i + 1;
    }
    match &scan.stopped {
        Some(failure) => Err(failure.clone()),
        None => {
            assert(chosen + Seq::<Seq<char>>::empty() =~= chosen);
            Ok(copies)
        },
    }
}

/// The digest by which a copied file is known.
pub open spec fn content_digest(content: Seq<u8>) -> Seq<char> {
    crate::hashing::hex(crate::hashing::sha256(content))
}

/// The digest by which a copied file is known.
pub fn hash_content(content: &Vec<u8>) -> (digest: String)
    ensures
        digest@ == content_digest(content@),
{
    hex_text(&sha256_digest(content))
}

/// What a worktree got beside what Git tracks: the patterns, and the files that were copied.
#[derive(Debug)]
pub struct WorktreeIncludeState {
    pub patterns: Option<String>,
    pub files: Vec<IncludedFileState>,
}

/// What a worktree got where there are no patterns.
pub fn no_includes() -> (state: WorktreeIncludeState)
    ensures
        state.patterns is None,
        state.files@.len() == 0,
{
    WorktreeIncludeState { patterns: None, files: Vec::new() }
}

/// What a worktree got, by the patterns and what was found in the copied files.
pub fn included_state(
    patterns: String,
    copies: &Vec<IncludeCopy>,
    contents: &Vec<Vec<u8>>,
) -> (state: WorktreeIncludeState)
    requires
        copies@.len() == contents@.len(),
    ensures
        state.patterns == Some(patterns),
        state.files@.len() == copies@.len(),
        forall|i: int|
            0 <= i < copies@.len() ==> (#[trigger] state.files@[i]).path@ == copies@[i].relative@
                && state.files@[i].sha256@ == content_digest(contents@[i]@),
{
    let mut files: Vec<IncludedFileState> = Vec::new();
    let mut i: usize = 0;
    while i < copies.len()
        invariant
            i <= copies@.len(),
            copies@.len() == contents@.len(),
            files@.len() == i,
            forall|j: int|
                0 <= j < i ==> (#[trigger] files@[j]).path@ == copies@[j].relative@
                    && files@[j].sha256@ == content_digest(contents@[j]@),
        decreases copies@.len() - i,
    {
        files.push(
            IncludedFileState {
                path: copies[i].relative.clone(),
                sha256: hash_content(&contents[i]),
            },
        );
        i = i + 1;
    }
    WorktreeIncludeState { patterns: Some(patterns), files }
}

/// Whether one of the copied files of a worktree was changed, from one on: it is no file any more, or
/// holds something else. A file that Git has come to track is left to Git. `contents` is, for each,
/// what it holds, where it is a file. There is no answer where none of them was changed.
pub open spec fn copy_changed(
    files: Seq<(Seq<char>, Seq<char>)>,
    from: int,
    in_git: Seq<Seq<char>>,
    contents: Seq<Result<Option<Vec<u8>>, Failure>>,
    windows: bool,
) -> Option<Result<bool, Seq<Seq<char>>>>
    decreases files.len() - from,
{
    if from < 0 || from >= files.len() {
        None
    } else if in_git.contains(super::worktree::relative_key(files[from].0, windows)) {
        copy_changed(files, from + 1, in_git, contents, windows)
    } else {
        match contents[from] {
            Err(failure) => Some(Err(failure@)),
            Ok(None) => Some(Ok(true)),
            Ok(Some(content)) => if content_digest(content@) != files[from].1 {
                Some(Ok(true))
            } else {
                copy_changed(files, from + 1, in_git, contents, windows)
            },
        }
    }
}

/// Whether Git ignores a file in a worktree, from one of its paths on, that the patterns take in and
/// that was not copied there.
pub open spec fn copy_added(
    lines: Seq<Seq<char>>,
    paths: Seq<Seq<char>>,
    from: int,
    initial: Seq<Seq<char>>,
    windows: bool,
) -> Result<bool, Seq<Seq<char>>>
    decreases paths.len() - from,
{
    if from < 0 || from >= paths.len() {
        Ok(false)
    } else if !crate::paths::safe_relative(paths[from], windows) {
        Err(seq!["Git returned an unsafe ignored path: "@ + paths[from]])
    } else if taken_in(lines, paths[from], windows) && !initial.contains(
        super::worktree::relative_key(paths[from], windows),
    ) {
        Ok(true)
    } else {
        copy_added(lines, paths, from + 1, initial, windows)
    }
}

/// The paths of files.
pub open spec fn first_parts(files: Seq<(Seq<char>, Seq<char>)>) -> Seq<Seq<char>> {
    files.map_values(|f: (Seq<char>, Seq<char>)| f.0)
}

/// Whether what a worktree got beside what Git tracks was changed or added to.
pub open spec fn includes_dirty(
    entry: super::registry::WorktreeModel,
    in_git: Result<CommandOutput, Failure>,
    contents: Seq<Result<Option<Vec<u8>>, Failure>>,
    ignored: Result<CommandOutput, Failure>,
    windows: bool,
) -> Result<bool, Seq<Seq<char>>> {
    if entry.include_patterns is None && entry.included_files.len() == 0 {
        Ok(false)
    } else {
        match git_bytes(in_git, "Failed to enumerate tracked worktree files: "@) {
            Err(failure) => Err(failure),
            Ok(bytes) => match printed_keys(bytes, windows) {
                Err(failure) => Err(failure),
                Ok(keys) => match copy_changed(entry.included_files, 0, keys, contents, windows) {
                    Some(answer) => answer,
                    None => match entry.include_patterns {
                        None => Ok(false),
                        Some(patterns) => patterns_dirty(
                            crate::paths::joined(entry.path, ".worktreeinclude"@, windows),
                            patterns,
                            entry.included_files,
                            ignored,
                            windows,
                        ),
                    },
                },
            },
        }
    }
}

/// Whether Git ignores a file in a worktree that the patterns take in and that was not copied there.
pub open spec fn patterns_dirty(
    include_path: Seq<char>,
    patterns: Seq<char>,
    files: Seq<(Seq<char>, Seq<char>)>,
    ignored: Result<CommandOutput, Failure>,
    windows: bool,
) -> Result<bool, Seq<Seq<char>>> {
    let lines = crate::strings::lines(patterns);
    match pattern_problem(include_path, lines, 0) {
        Some(failure) => Err(failure),
        None => match git_bytes(ignored, "Failed to enumerate ignored worktree files: "@) {
            Err(failure) => Err(failure),
            Ok(bytes) => match printed_paths(bytes) {
                Err(failure) => Err(failure),
                Ok(paths) => copy_added(
                    lines,
                    paths,
                    0,
                    keys_of(first_parts(files), windows),
                    windows,
                ),
            },
        },
    }
}

/// An answer by its views.
pub open spec fn answer_view(r: Result<bool, Failure>) -> Result<bool, Seq<Seq<char>>> {
    match r {
        Ok(answer) => Ok(answer),
        Err(failure) => Err(failure@),
    }
}

fn find_changed_copy(
    entry: &ManagedWorktree,
    in_git: &Vec<String>,
    contents: &Vec<Result<Option<Vec<u8>>, Failure>>,
    windows: bool,
) -> (r: Option<Result<bool, Failure>>)
    requires
        contents@.len() == entry.included_files@.len(),
    ensures
        copy_changed(
            entry@.included_files,
            0,
            crate::strings::text_views(in_git@),
            contents@,
            windows,
        ) == (match r {
            Some(answer) => Some(answer_view(answer)),
            None => None,
        }),
{
    let ghost files = entry@.included_files;
    let ghost keys = crate::strings::text_views(in_git@);
    let mut i: usize = 0;
    while i < entry.included_files.len()
        invariant
            i <= entry.included_files@.len(),
            contents@.len() == entry.included_files@.len(),
            files == entry@.included_files,
            keys == crate::strings::text_views(in_git@),
            copy_changed(files, 0, keys, contents@, windows) == copy_changed(
                files,
                i as int,
                keys,
                contents@,
                windows,
            ),
        decreases entry.included_files@.len() - i,
    {
        let state = &entry.included_files[i];
        assert(files[i as int] == (state.path@, state.sha256@));
        let key = relative_path_key(state.path.as_str(), windows);
        if !is_among(in_git, key.as_str()) {
            match &contents[i] {
                Err(failure) => return Some(Err(failure.clone())),
                Ok(found) => match found {
                    None => return Some(Ok(true)),
                    Some(content) => {
                        let digest = hash_content(content);
                        if !same_text(digest.as_str(), state.sha256.as_str()) {
                            return Some(Ok(true));
                        }
                    },
                },
            }
        }
        i = i + 1;
    }
    None
}

fn find_added_copy(
    entry: &ManagedWorktree,
    patterns: &str,
    ignored: &Result<CommandOutput, Failure>,
    windows: bool,
) -> (r: Result<bool, Failure>)
    ensures
        answer_view(r) == patterns_dirty(
            crate::paths::joined(entry.path@, ".worktreeinclude"@, windows),
            patterns@,
            entry@.included_files,
            *ignored,
            windows,
        ),
{
    let include_path = join_path(entry.path.as_str(), ".worktreeinclude", windows);
    let matcher = match build_include_matcher(include_path.as_str(), patterns) {
        Ok(matcher) => matcher,
        Err(failure) => return Err(failure),
    };
    let bytes = match git_printed(ignored, "Failed to enumerate ignored worktree files: ") {
        Ok(bytes) => bytes,
        Err(failure) => return Err(failure),
    };
    let paths = match nul_paths(bytes) {
        Ok(paths) => paths,
        Err(failure) => return Err(failure),
    };
    let mut own: Vec<String> = Vec::new();
    let ghost firsts = first_parts(entry@.included_files);
    let mut k: usize = 0;
    assert(crate::strings::text_views(own@) =~= Seq::<Seq<char>>::empty());
    while k < entry.included_files.len()
        invariant
            k <= entry.included_files@.len(),
            firsts == first_parts(entry@.included_files),
            crate::strings::text_views(own@) == firsts.take(k as int),
        decreases entry.included_files@.len() - k,
    {
        let path = entry.included_files[k].path.clone();
        proof {
            assert(firsts[k as int] == path@);
            crate::strings::lemma_text_views_push(own@, path);
            assert(firsts.take(k + 1) =~= firsts.take(k as int).push(path@));
        }
        own.push(path);
        k = k + 1;
    }
    assert(firsts.take(k as int) == firsts);
    let initial = key_list(&own, windows);
    let ghost lines = crate::strings::lines(patterns@);
    let ghost views = crate::strings::text_views(paths@);
    let ghost known = crate::strings::text_views(initial@);
    let ghost goal = patterns_dirty(
        include_path@,
        patterns@,
        entry@.included_files,
        *ignored,
        windows,
    );
    let mut i: usize = 0;
    while i < paths.len()
        invariant
            i <= paths@.len(),
            views == crate::strings::text_views(paths@),
            known == crate::strings::text_views(initial@),
            lines == matcher_lines(matcher),
            goal == patterns_dirty(
                crate::paths::joined(entry.path@, ".worktreeinclude"@, windows),
                patterns@,
                entry@.included_files,
                *ignored,
                windows,
            ),
            goal == copy_added(lines, views, i as int, known, windows),
        decreases paths@.len() - i,
    {
        let path = paths[i].as_str();
        assert(views[i as int] == path@);
        if !is_safe_relative_path(path, windows) {
            let mut text = "Git returned an unsafe ignored path: ".to_owned();
            append_text(&mut text, path);
            return Err(Failure::of(text));
        }
        if is_taken_in(&matcher, path, windows) {
            let key = relative_path_key(path, windows);
            if !is_among(&initial, key.as_str()) {
                return Ok(true);
            }
        }
        i = i + 1;
    }
    Ok(false)
}

/// Whether what a worktree got beside what Git tracks was changed or added to. `contents` is, for
/// each of the copied files, what it holds, where it is a file; `in_git` and `ignored` are what Git
/// printed of the files it tracks in the worktree and of those it ignores there.
pub fn included_files_are_dirty(
    entry: &ManagedWorktree,
    in_git: &Result<CommandOutput, Failure>,
    contents: &Vec<Result<Option<Vec<u8>>, Failure>>,
    ignored: &Result<CommandOutput, Failure>,
    windows: bool,
) -> (r: Result<bool, Failure>)
    requires
        contents@.len() == entry.included_files@.len(),
    ensures
        answer_view(r) == includes_dirty(entry@, *in_git, contents@, *ignored, windows),
{
    if entry.include_patterns.is_none() && entry.included_files.len() == 0 {
        return Ok(false);
    }
    let bytes = match git_printed(in_git, "Failed to enumerate tracked worktree files: ") {
        Ok(bytes) => bytes,
        Err(failure) => return Err(failure),
    };
    let keys = match printed_key_list(bytes, windows) {
        Ok(keys) => keys,
        Err(failure) => return Err(failure),
    };
    if let Some(answer) = find_changed_copy(entry, &keys, contents, windows) {
        return answer;
    }
    match &entry.include_patterns {
        None => Ok(false),
        Some(patterns) => find_added_copy(entry, patterns.as_str(), ignored, windows),
    }
}

/// Whether a worktree holds anything that removing it would lose.
pub open spec fn worktree_dirty(
    path: Seq<char>,
    exists: bool,
    status: Result<CommandOutput, Failure>,
    included: Result<bool, Seq<Seq<char>>>,
) -> Result<bool, Seq<Seq<char>>> {
    if !exists {
        Err(seq!["Managed worktree no longer exists: "@ + path])
    } else {
        match git_bytes(status, "Failed to inspect worktree: "@) {
            Err(failure) => Err(failure),
            Ok(bytes) => if bytes.len() > 0 {
                Ok(true)
            } else {
                included
            },
        }
    }
}

/// Whether a worktree holds anything that removing it would lose: changes that Git sees, or copied
/// files that were changed or added to. `status` is what Git printed of its state, and `included` is
/// whether the copied files are not as they were.
pub fn is_dirty(
    entry: &ManagedWorktree,
    exists: bool,
    status: &Result<CommandOutput, Failure>,
    included: Result<bool, Failure>,
) -> (r: Result<bool, Failure>)
    ensures
        answer_view(r) == worktree_dirty(entry.path@, exists, *status, answer_view(included)),
{
    if !exists {
        let mut text = "Managed worktree no longer exists: ".to_owned();
        append_text(&mut text, entry.path.as_str());
        return Err(Failure::of(text));
    }
    match git_printed(status, "Failed to inspect worktree: ") {
        Err(failure) => Err(failure),
        Ok(bytes) => {
            if bytes.len() > 0 {
                Ok(true)
            } else {
                included
            }
        },
    }
}

/// Whether a copied file that Git does not track is gone, or holds something else than was copied.
pub open spec fn copy_differs(
    file: (Seq<char>, Seq<char>),
    content: Option<Vec<u8>>,
    in_git: Seq<Seq<char>>,
    windows: bool,
) -> bool {
    !in_git.contains(super::worktree::relative_key(file.0, windows)) && match content {
        None => true,
        Some(bytes) => content_digest(bytes@) != file.1,
    }
}

/// Whether an ignored file is one that the patterns take in and that was not copied.
pub open spec fn copy_is_new(
    patterns: Seq<char>,
    path: Seq<char>,
    files: Seq<(Seq<char>, Seq<char>)>,
    windows: bool,
) -> bool {
    taken_in(crate::strings::lines(patterns), path, windows) && !keys_of(
        first_parts(files),
        windows,
    ).contains(super::worktree::relative_key(path, windows))
}

/// What was seen of a worktree, where all of it could be seen.
pub struct WorktreeSight {
    /// What Git printed of changes.
    pub changes: Seq<u8>,
    /// The paths that Git tracks.
    pub tracked_paths: Seq<Seq<char>>,
    /// The paths that Git ignores.
    pub ignored_paths: Seq<Seq<char>>,
}

/// Whether all that tells a worktree's state could be seen, and what it was.
pub open spec fn all_seen(
    entry: super::registry::WorktreeModel,
    status: Result<CommandOutput, Failure>,
    in_git: Result<CommandOutput, Failure>,
    contents: Seq<Result<Option<Vec<u8>>, Failure>>,
    ignored: Result<CommandOutput, Failure>,
    windows: bool,
    sight: WorktreeSight,
) -> bool {
    &&& git_bytes(status, "Failed to inspect worktree: "@) == Ok::<Seq<u8>, Seq<Seq<char>>>(
        sight.changes,
    )
    &&& entry.include_patterns is Some || entry.included_files.len() > 0 ==> {
        git_bytes(in_git, "Failed to enumerate tracked worktree files: "@) matches Ok(bytes)
            && printed_paths(bytes) == Ok::<Seq<Seq<char>>, Seq<Seq<char>>>(sight.tracked_paths)
    }
    &&& contents.len() == entry.included_files.len()
    &&& forall|i: int| 0 <= i < contents.len() ==> (#[trigger] contents[i]) is Ok
    &&& entry.include_patterns matches Some(patterns) ==> {
        &&& pattern_problem(
            crate::paths::joined(entry.path, ".worktreeinclude"@, windows),
            crate::strings::lines(patterns),
            0,
        ) is None
        &&& git_bytes(ignored, "Failed to enumerate ignored worktree files: "@) matches Ok(bytes)
            && printed_paths(bytes) == Ok::<Seq<Seq<char>>, Seq<Seq<char>>>(sight.ignored_paths)
        &&& forall|j: int|
            0 <= j < sight.ignored_paths.len() ==> crate::paths::safe_relative(
                #[trigger] sight.ignored_paths[j],
                windows,
            )
    }
}

/// A worktree that could be looked at is dirty exactly where removing it would lose something: Git
/// sees a change, a copied file that Git does not track is gone or was changed, or there is an
/// ignored file that the patterns take in and that was not copied.
pub proof fn law_dirty_exactly_where_something_would_be_lost(
    entry: super::registry::WorktreeModel,
    status: Result<CommandOutput, Failure>,
    in_git: Result<CommandOutput, Failure>,
    contents: Seq<Result<Option<Vec<u8>>, Failure>>,
    ignored: Result<CommandOutput, Failure>,
    windows: bool,
    sight: WorktreeSight,
)
    requires
        all_seen(entry, status, in_git, contents, ignored, windows, sight),
    ensures
        ({
            let keys = keys_of(sight.tracked_paths, windows);
            let changed = exists|i: int|
                0 <= i < contents.len() && copy_differs(
                    entry.included_files[i],
                    (#[trigger] contents[i])->Ok_0,
                    keys,
                    windows,
                );
            let added = entry.include_patterns matches Some(patterns) && exists|j: int|
                0 <= j < sight.ignored_paths.len() && copy_is_new(
                    patterns,
                    #[trigger] sight.ignored_paths[j],
                    entry.included_files,
                    windows,
                );
            worktree_dirty(
                entry.path,
                true,
                status,
                includes_dirty(entry, in_git, contents, ignored, windows),
            ) == Ok::<bool, Seq<Seq<char>>>(sight.changes.len() > 0 || changed || added)
        }),
{
    let keys = keys_of(sight.tracked_paths, windows);
    lemma_changed_copy(entry.included_files, 0, keys, contents, windows);
    if let Some(patterns) = entry.include_patterns {
        lemma_added_copy(patterns, sight.ignored_paths, 0, entry.included_files, windows);
    }
}

/// A worktree in which Git sees no change is clean again once its copied files hold what was copied
/// and every ignored file that the patterns take in is one of them.
pub proof fn law_a_restored_worktree_is_clean(
    entry: super::registry::WorktreeModel,
    copied: Seq<Seq<u8>>,
    status: Result<CommandOutput, Failure>,
    in_git: Result<CommandOutput, Failure>,
    contents: Seq<Result<Option<Vec<u8>>, Failure>>,
    ignored: Result<CommandOutput, Failure>,
    windows: bool,
    sight: WorktreeSight,
)
    requires
        all_seen(entry, status, in_git, contents, ignored, windows, sight),
        sight.changes.len() == 0,
        copied.len() == entry.included_files.len(),
        forall|i: int|
            0 <= i < copied.len() ==> entry.included_files[i].1 == content_digest(
                #[trigger] copied[i],
            ),
        forall|i: int|
            0 <= i < contents.len() ==> ((#[trigger] contents[i])->Ok_0 matches Some(bytes)
                && bytes@ == copied[i]),
        entry.include_patterns matches Some(patterns) ==> forall|j: int|
            0 <= j < sight.ignored_paths.len() ==> !copy_is_new(
                patterns,
                #[trigger] sight.ignored_paths[j],
                entry.included_files,
                windows,
            ),
    ensures
        worktree_dirty(
            entry.path,
            true,
            status,
            includes_dirty(entry, in_git, contents, ignored, windows),
        ) == Ok::<bool, Seq<Seq<char>>>(false),
{
    law_dirty_exactly_where_something_would_be_lost(
        entry,
        status,
        in_git,
        contents,
        ignored,
        windows,
        sight,
    );
    let keys = keys_of(sight.tracked_paths, windows);
    assert forall|i: int| 0 <= i < contents.len() implies !copy_differs(
        entry.included_files[i],
        (#[trigger] contents[i])->Ok_0,
        keys,
        windows,
    ) by {
        assert(entry.included_files[i].1 == content_digest(copied[i]));
    }
}

proof fn lemma_changed_copy(
    files: Seq<(Seq<char>, Seq<char>)>,
    from: int,
    in_git: Seq<Seq<char>>,
    contents: Seq<Result<Option<Vec<u8>>, Failure>>,
    windows: bool,
)
    requires
        0 <= from <= files.len(),
        contents.len() == files.len(),
        forall|i: int| 0 <= i < contents.len() ==> (#[trigger] contents[i]) is Ok,
    ensures
        copy_changed(files, from, in_git, contents, windows) == (if exists|i: int|
            from <= i < contents.len() && copy_differs(
                files[i],
                (#[trigger] contents[i])->Ok_0,
                in_git,
                windows,
            ) {
            Some(Ok::<bool, Seq<Seq<char>>>(true))
        } else {
            None
        }),
    decreases files.len() - from,
{
    if from < files.len() {
        lemma_changed_copy(files, from + 1, in_git, contents, windows);
        assert(contents[from] is Ok);
        if !copy_differs(files[from], contents[from]->Ok_0, in_git, windows) {
            assert((exists|i: int|
                from <= i < contents.len() && copy_differs(
                    files[i],
                    (#[trigger] contents[i])->Ok_0,
                    in_git,
                    windows,
                )) == (exists|i: int|
                from + 1 <= i < contents.len() && copy_differs(
                    files[i],
                    (#[trigger] contents[i])->Ok_0,
                    in_git,
                    windows,
                )));
        }
    }
}

proof fn lemma_added_copy(
    patterns: Seq<char>,
    paths: Seq<Seq<char>>,
    from: int,
    files: Seq<(Seq<char>, Seq<char>)>,
    windows: bool,
)
    requires
        0 <= from <= paths.len(),
        forall|j: int|
            0 <= j < paths.len() ==> crate::paths::safe_relative(#[trigger] paths[j], windows),
    ensures
        copy_added(
            crate::strings::lines(patterns),
            paths,
            from,
            keys_of(first_parts(files), windows),
            windows,
        ) == Ok::<bool, Seq<Seq<char>>>(
            exists|j: int|
                from <= j < paths.len() && copy_is_new(
                    patterns,
                    #[trigger] paths[j],
                    files,
                    windows,
                ),
        ),
    decreases paths.len() - from,
{
    if from < paths.len() {
        lemma_added_copy(patterns, paths, from + 1, files, windows);
        assert(crate::paths::safe_relative(paths[from], windows));
        if !copy_is_new(patterns, paths[from], files, windows) {
            assert((exists|j: int|
                from <= j < paths.len() && copy_is_new(
                    patterns,
                    #[trigger] paths[j],
                    files,
                    windows,
                )) == (exists|j: int|
                from + 1 <= j < paths.len() && copy_is_new(
                    patterns,
                    #[trigger] paths[j],
                    files,
                    windows,
                )));
        }
    }
}

/// Nothing that is copied goes over a file that Git tracks, or over anything that is there.
pub proof fn law_copies_overwrite_nothing(
    matched: Seq<Seq<char>>,
    from: int,
    in_git: Seq<Seq<char>>,
    stopped: Option<Seq<Seq<char>>>,
    files: Seq<Seq<char>>,
    existing: Seq<Seq<char>>,
    worktree: Seq<char>,
    windows: bool,
)
    requires
        0 <= from,
    ensures
        planned(matched, from, in_git, stopped, files, existing, worktree, windows) matches Ok(
            paths,
        ) ==> forall|i: int|
            0 <= i < paths.len() ==> !existing.contains(#[trigger] paths[i]) && !in_git.contains(
                super::worktree::relative_key(paths[i], windows),
            ) && matched.contains(paths[i]) && files.contains(paths[i]),
    decreases matched.len() - from,
{
    if from < matched.len() {
        law_copies_overwrite_nothing(
            matched,
            from + 1,
            in_git,
            stopped,
            files,
            existing,
            worktree,
            windows,
        );
        let whole = planned(matched, from, in_git, stopped, files, existing, worktree, windows);
        let rest = planned(
            matched,
            from + 1,
            in_git,
            stopped,
            files,
            existing,
            worktree,
            windows,
        );
        if let (Ok(paths), Ok(tail)) = (whole, rest) {
            if paths != tail {
                assert(paths == seq![matched[from]] + tail);
                assert forall|i: int| 0 <= i < paths.len() implies !existing.contains(
                    #[trigger] paths[i],
                ) && !in_git.contains(super::worktree::relative_key(paths[i], windows))
                    && matched.contains(paths[i]) && files.contains(paths[i]) by {
                    if i > 0 {
                        assert(paths[i] == tail[i - 1]);
                    }
                }
            }
        }
    }
}

/// Every path that a search finds stays below the directory it is seen from.
pub proof fn law_found_paths_are_safe(
    lines: Seq<Seq<char>>,
    pieces: Seq<Seq<u8>>,
    from: int,
    windows: bool,
)
    requires
        0 <= from,
    ensures
        forall|i: int|
            0 <= i < scanned(lines, pieces, from, windows).0.len() ==> crate::paths::safe_relative(
                #[trigger] scanned(lines, pieces, from, windows).0[i],
                windows,
            ) && taken_in(lines, scanned(lines, pieces, from, windows).0[i], windows),
    decreases pieces.len() - from,
{
    if from < pieces.len() {
        law_found_paths_are_safe(lines, pieces, from + 1, windows);
        let whole = scanned(lines, pieces, from, windows).0;
        let rest = scanned(lines, pieces, from + 1, windows).0;
        assert forall|i: int| 0 <= i < whole.len() implies crate::paths::safe_relative(
            #[trigger] whole[i],
            windows,
        ) && taken_in(lines, whole[i], windows) by {
            if whole.len() == rest.len() {
                assert(whole[i] == rest[i]);
            } else if i > 0 {
                assert(whole[i] == rest[i - 1]);
            }
        }
    }
}

/// Only files are found that Git printed among the ignored ones and that the patterns take in.
pub proof fn law_only_matching_ignored_files_are_found(
    lines: Seq<Seq<char>>,
    pieces: Seq<Seq<u8>>,
    from: int,
    windows: bool,
)
    requires
        0 <= from,
    ensures
        forall|i: int|
            0 <= i < scanned(lines, pieces, from, windows).0.len() ==> taken_in(
                lines,
                #[trigger] scanned(lines, pieces, from, windows).0[i],
                windows,
            ) && printed_among(pieces, scanned(lines, pieces, from, windows).0[i]),
    decreases pieces.len() - from,
{
    if from < pieces.len() {
        law_only_matching_ignored_files_are_found(lines, pieces, from + 1, windows);
        let found = scanned(lines, pieces, from, windows).0;
        let rest = scanned(lines, pieces, from + 1, windows).0;
        assert forall|i: int| 0 <= i < found.len() implies taken_in(
            lines,
            #[trigger] found[i],
            windows,
        ) && printed_among(pieces, found[i]) by {
            let path = vstd::utf8::decode_utf8(pieces[from]);
            if taken_in(lines, path, windows) {
                if i == 0 {
                    assert(printed_among(pieces, path));
                } else {
                    assert(found[i] == rest[i - 1]);
                }
            } else {
                assert(found[i] == rest[i]);
            }
        }
    }
}

/// Whether one of the pieces that Git printed encodes a path.
pub open spec fn printed_among(pieces: Seq<Seq<u8>>, path: Seq<char>) -> bool {
    exists|k: int|
        0 <= k < pieces.len() && vstd::utf8::valid_utf8(#[trigger] pieces[k])
            && vstd::utf8::decode_utf8(pieces[k]) == path
}

/// Where Git printed nothing but safe paths, every one that the patterns take in is found.
pub proof fn law_every_matching_file_is_found(
    lines: Seq<Seq<char>>,
    pieces: Seq<Seq<u8>>,
    from: int,
    windows: bool,
    at: int,
)
    requires
        0 <= from <= at < pieces.len(),
        forall|k: int|
            from <= k < pieces.len() ==> vstd::utf8::valid_utf8(#[trigger] pieces[k])
                && crate::paths::safe_relative(vstd::utf8::decode_utf8(pieces[k]), windows),
    ensures
        scanned(lines, pieces, from, windows).1 is None,
        taken_in(lines, vstd::utf8::decode_utf8(pieces[at]), windows) ==> scanned(
            lines,
            pieces,
            from,
            windows,
        ).0.contains(vstd::utf8::decode_utf8(pieces[at])),
    decreases pieces.len() - from,
{
    assert(vstd::utf8::valid_utf8(pieces[from]));
    let path = vstd::utf8::decode_utf8(pieces[from]);
    let found = scanned(lines, pieces, from, windows).0;
    if from + 1 < pieces.len() {
        let rest = scanned(lines, pieces, from + 1, windows);
        law_every_matching_file_is_found(
            lines,
            pieces,
            from + 1,
            windows,
            if at > from {
                at
            } else {
                from + 1
            },
        );
        let wanted = vstd::utf8::decode_utf8(pieces[at]);
        if at > from && taken_in(lines, wanted, windows) {
            let k = choose|k: int| 0 <= k < rest.0.len() && rest.0[k] == wanted;
            if taken_in(lines, path, windows) {
                assert(found[k + 1] == wanted);
            }
        }
    }
    if at == from && taken_in(lines, path, windows) {
        assert(found[0] == path);
    }
}

/// Where the scan was not stopped and nothing stands in the way, every found file is copied.
pub proof fn law_every_found_file_is_copied(
    matched: Seq<Seq<char>>,
    from: int,
    in_git: Seq<Seq<char>>,
    files: Seq<Seq<char>>,
    existing: Seq<Seq<char>>,
    worktree: Seq<char>,
    windows: bool,
    at: int,
)
    requires
        0 <= from <= at < matched.len(),
        forall|k: int|
            from <= k < matched.len() && files.contains(#[trigger] matched[k]) ==> !in_git.contains(
                super::worktree::relative_key(matched[k], windows),
            ) && !existing.contains(matched[k]),
    ensures
        planned(matched, from, in_git, None, files, existing, worktree, windows) matches Ok(paths) && (
        files.contains(matched[at]) ==> paths.contains(matched[at])),
    decreases matched.len() - from,
{
    let path = matched[from];
    let now = planned(matched, from, in_git, None, files, existing, worktree, windows);
    if from + 1 < matched.len() {
        law_every_found_file_is_copied(
            matched,
            from + 1,
            in_git,
            files,
            existing,
            worktree,
            windows,
            if at > from {
                at
            } else {
                from + 1
            },
        );
        let rest = planned(matched, from + 1, in_git, None, files, existing, worktree, windows)->Ok_0;
        if at > from && files.contains(matched[at]) {
            let k = choose|k: int| 0 <= k < rest.len() && rest[k] == matched[at];
            if files.contains(path) {
                assert(now->Ok_0[k + 1] == matched[at]);
            }
        }
    }
    if at == from && files.contains(path) {
        assert(now->Ok_0[0] == path);
    }
}

/// A scan that was stopped copies nothing.
pub proof fn law_a_stopped_scan_copies_nothing(
    matched: Seq<Seq<char>>,
    from: int,
    in_git: Seq<Seq<char>>,
    failure: Seq<Seq<char>>,
    files: Seq<Seq<char>>,
    existing: Seq<Seq<char>>,
    worktree: Seq<char>,
    windows: bool,
)
    requires
        0 <= from <= matched.len(),
    ensures
        planned(matched, from, in_git, Some(failure), files, existing, worktree, windows) is Err,
    decreases matched.len() - from,
{
    if from < matched.len() {
        law_a_stopped_scan_copies_nothing(
            matched,
            from + 1,
            in_git,
            failure,
            files,
            existing,
            worktree,
            windows,
        );
    }
}

/// A pattern that is no longer than the limit of open braces is never too deep.
pub proof fn law_short_patterns_are_never_too_deep(line: Seq<char>)
    ensures
        line.len() <= 500 ==> !too_deep(line),
{
    lemma_braces_are_characters(line);
}

proof fn lemma_braces_are_characters(line: Seq<char>)
    ensures
        open_braces(line) <= line.len(),
        deepest_braces(line) <= line.len(),
    decreases line.len(),
{
    if line.len() > 0 {
        lemma_braces_are_characters(line.drop_last());
    }
}

/// A file is copied under its own path: from the repository to the worktree.
pub proof fn law_copies_keep_their_path(
    copies: Seq<IncludeCopy>,
    paths: Seq<Seq<char>>,
    source_repository: Seq<char>,
    worktree: Seq<char>,
    windows: bool,
    i: int,
)
    requires
        copies_for(copies, paths, source_repository, worktree, windows),
        0 <= i < paths.len(),
    ensures
        copies.len() == paths.len(),
        copies[i].relative@ == paths[i],
        copies[i].source@ == crate::paths::joined(source_repository, copies[i].relative@, windows),
        copies[i].destination@ == crate::paths::joined(worktree, copies[i].relative@, windows),
{
}

/// On Windows a path is matched with plain slashes and without the dots in front; elsewhere as it is.
pub proof fn law_paths_are_matched_in_plain_form(path: Seq<char>)
    ensures
        matched_form(path, false) == path,
        !path.contains('\\') && !(path.len() >= 2 && path[0] == '.' && path[1] == '/') ==> matched_form(
            path,
            true,
        ) == path,
        !path.contains('\\') && path.len() > 0 && path[0] != '/' ==> matched_form(seq!['.', '/'] + path, true)
            == matched_form(path, true),
{
    if !path.contains('\\') {
        let dotted = seq!['.', '/'] + path;
        assert forall|i: int| 0 <= i < path.len() implies path[i] != '\\' by {
            assert(path.contains(path[i]));
        }
        assert(super::worktree::exchanged(path, '\\', '/') =~= path);
        assert(super::worktree::exchanged(dotted, '\\', '/') =~= dotted);
        if path.len() > 0 && path[0] != '/' {
            assert(dotted.skip(1) =~= seq!['/'] + path);
            assert((seq!['/'] + path).skip(1) =~= path);
            reveal_with_fuel(without_slashes, 2);
            assert(without_slashes(dotted.skip(1)) == path);
        }
    }
}

/// An opening brace opens one more, a closing one closes the last, unless it is escaped or a bracket
/// came before it, and other characters change nothing.
pub proof fn law_braces_open_and_close(line: Seq<char>, c: char)
    ensures
        open_braces(line.push('{')) == open_braces(line) + 1,
        c != '{' && c != '}' ==> open_braces(line.push(c)) == open_braces(line),
        open_braces(line) > 0 && (line.len() == 0 || line.last() != '\\') && !line.contains('[')
            ==> open_braces(line.push('}')) == open_braces(line) - 1,
        deepest_braces(line) >= open_braces(line),
        deepest_braces(line.push(c)) >= deepest_braces(line),
{
    assert(line.push('{').drop_last() =~= line);
    assert(line.push('}').drop_last() =~= line);
    assert(line.push(c).drop_last() =~= line);
    let closed = line.push('}');
    if line.len() > 0 {
        assert(closed[closed.len() - 2] == line.last());
    }
    if closed.contains('[') {
        let i = choose|i: int| 0 <= i < closed.len() && closed[i] == '[';
        assert(line[i] == '[');
    }
}

} // verus!
