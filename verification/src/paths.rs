//! File paths as texts.
//!
//! A path is the text of it; `windows` says whose rules it follows. On Windows a path may begin with
//! a drive (`C:`) or a share (`\\server\share`), and a backslash separates components as a slash does.
//! A path may also be in long form (`\\?\C:\x`).

use crate::strings::{
    append_text, chars_of, lemma_text_views_push, text_between, text_of, text_views,
};
use vstd::prelude::*;

verus! {

/// Whether a character separates components.
pub open spec fn separator(c: char, windows: bool) -> bool {
    c == '/' || (windows && c == '\\')
}

/// The separator that joining puts in.
pub open spec fn main_separator(windows: bool) -> char {
    if windows {
        '\\'
    } else {
        '/'
    }
}

/// The position of the first separator at or behind `from`, or the end of the text.
pub open spec fn separator_from(s: Seq<char>, from: int, windows: bool) -> int
    decreases s.len() - from,
{
    if 0 <= from < s.len() && !separator(s[from], windows) {
        separator_from(s, from + 1, windows)
    } else {
        from
    }
}

/// Whether a path begins with a drive.
pub open spec fn has_drive(s: Seq<char>, windows: bool) -> bool {
    windows && s.len() >= 2 && s[1] == ':' && (('a' <= s[0] && s[0] <= 'z') || ('A' <= s[0] && s[0]
        <= 'Z'))
}

/// Whether a path is in the long form that Windows has, which begins with `\\?\`.
pub open spec fn long(s: Seq<char>, windows: bool) -> bool {
    windows && s.len() >= 4 && s[0] == '\\' && s[1] == '\\' && s[2] == '?' && s[3] == '\\'
}

/// The position of the first backslash at or behind `from`, or the end of the text.
pub open spec fn backslash_from(s: Seq<char>, from: int) -> int
    decreases s.len() - from,
{
    if 0 <= from < s.len() && s[from] != '\\' {
        backslash_from(s, from + 1)
    } else {
        from
    }
}

/// Where the prefix of a path in long form ends: behind a share (`\\?\UNC\server\share`), a drive
/// (`\\?\C:`), or whatever name stands there.
pub open spec fn long_prefix_end(s: Seq<char>) -> int {
    if s.len() >= 8 && s[4] == 'U' && s[5] == 'N' && s[6] == 'C' && separator(s[7], true) {
        let server = backslash_from(s, 8);
        let share = backslash_from(s, server + 1);
        if server < s.len() && share > server + 1 {
            share
        } else {
            server
        }
    } else if s.len() >= 6 && has_drive(s.skip(4), true) && (s.len() == 6 || separator(s[6], true)) {
        6
    } else {
        backslash_from(s, 4)
    }
}

/// Where the name of the share at the start of a path ends, or the prefix of its long form; 0 for a
/// path that begins with neither.
pub open spec fn share_end(s: Seq<char>, windows: bool) -> int {
    if long(s, windows) {
        long_prefix_end(s)
    } else if windows && s.len() >= 2 && separator(s[0], windows) && separator(s[1], windows) {
        let server = separator_from(s, 2, windows);
        let share = separator_from(s, server + 1, windows);
        if server > 2 && server < s.len() && share > server + 1 {
            share
        } else {
            0
        }
    } else {
        0
    }
}

/// The length of the drive or the share that a path begins with.
pub open spec fn prefix_end(s: Seq<char>, windows: bool) -> int {
    if has_drive(s, windows) {
        2
    } else {
        share_end(s, windows)
    }
}

/// Where the components of a path begin: behind its drive or share, and its root.
pub open spec fn body_start(s: Seq<char>, windows: bool) -> int {
    let prefix = prefix_end(s, windows);
    if prefix < s.len() && separator(s[prefix], windows) {
        prefix + 1
    } else {
        prefix
    }
}

/// Whether a path is absolute.
pub open spec fn absolute(s: Seq<char>, windows: bool) -> bool {
    if windows {
        share_end(s, windows) > 0 || (has_drive(s, windows) && body_start(s, windows) > 2)
    } else {
        body_start(s, windows) > 0
    }
}

/// Whether a character of a path separates components. In long form only a backslash does.
pub open spec fn parts(s: Seq<char>, c: char, windows: bool) -> bool {
    if long(s, windows) {
        c == '\\'
    } else {
        separator(c, windows)
    }
}

/// The length of the start of a path up to `n` without the separators, and the components that
/// consist of one dot, at its end. In long form a dot is a component like others.
pub open spec fn trimmed_len(s: Seq<char>, n: int, windows: bool) -> int
    decreases n,
{
    if n <= body_start(s, windows) || n > s.len() || n <= 0 {
        n
    } else if parts(s, s[n - 1], windows) {
        trimmed_len(s, n - 1, windows)
    } else if !long(s, windows) && s[n - 1] == '.' && n >= 2 && separator(s[n - 2], windows) {
        trimmed_len(s, n - 1, windows)
    } else {
        n
    }
}

/// Where the component that ends at `n` begins.
pub open spec fn component_start(s: Seq<char>, n: int, windows: bool) -> int
    decreases n,
{
    if n <= body_start(s, windows) || n > s.len() || n <= 0 || parts(s, s[n - 1], windows) {
        n
    } else {
        component_start(s, n - 1, windows)
    }
}

/// The last component of a path, where that is a name.
pub open spec fn file_name(s: Seq<char>, windows: bool) -> Option<Seq<char>> {
    let end = trimmed_len(s, s.len() as int, windows);
    let component = s.subrange(component_start(s, end, windows), end);
    if end <= body_start(s, windows) || component == seq!['.'] || component == seq!['.', '.'] {
        None
    } else {
        Some(component)
    }
}

/// A path without its last component. A path of no components has no parent.
pub open spec fn parent(s: Seq<char>, windows: bool) -> Option<Seq<char>> {
    let end = trimmed_len(s, s.len() as int, windows);
    if end <= body_start(s, windows) {
        None
    } else {
        Some(s.take(trimmed_len(s, component_start(s, end, windows), windows)))
    }
}

/// Whether a character ends a component. In a path of long form only a backslash does.
pub open spec fn cuts(c: char, literal: bool) -> bool {
    c == '\\' || (!literal && c == '/')
}

/// Components with another one behind them. In a path of long form every name counts as it is;
/// elsewhere a dot is left out, and two dots take a name away.
pub open spec fn with_component(
    done: Seq<Seq<char>>,
    name: Seq<char>,
    literal: bool,
) -> Seq<Seq<char>> {
    if name.len() == 0 {
        done
    } else if literal {
        done.push(name)
    } else if name == seq!['.'] {
        done
    } else if name == seq!['.', '.'] {
        if done.len() > 0 && done.last() != seq!['.'] && done.last() != seq!['.', '.'] {
            done.drop_last()
        } else {
            done
        }
    } else {
        done.push(name)
    }
}

/// The components that are complete after some text, and what there is of the next one.
pub open spec fn walked(done: Seq<Seq<char>>, s: Seq<char>, literal: bool) -> (
    Seq<Seq<char>>,
    Seq<char>,
)
    decreases s.len(),
{
    if s.len() == 0 {
        (done, Seq::empty())
    } else {
        let before = walked(done, s.drop_last(), literal);
        if cuts(s.last(), literal) {
            (with_component(before.0, before.1, literal), Seq::empty())
        } else {
            (before.0, before.1.push(s.last()))
        }
    }
}

/// Components, followed by those of a text.
pub open spec fn components(done: Seq<Seq<char>>, s: Seq<char>, literal: bool) -> Seq<Seq<char>> {
    let last = walked(done, s, literal);
    with_component(last.0, last.1, literal)
}

/// Components, each behind a backslash.
pub open spec fn backslashed(names: Seq<Seq<char>>) -> Seq<char>
    decreases names.len(),
{
    if names.len() == 0 {
        Seq::empty()
    } else {
        backslashed(names.drop_last()).push('\\') + names.last()
    }
}

/// A path in long form, by its prefix, whether it has a root, and its components.
pub open spec fn long_form(prefix: Seq<char>, rooted: bool, names: Seq<Seq<char>>) -> Seq<char> {
    if rooted && names.len() == 0 {
        prefix.push('\\')
    } else {
        prefix + backslashed(names)
    }
}

/// Whether a path in long form has a root behind its prefix.
pub open spec fn long_rooted(s: Seq<char>) -> bool {
    long_prefix_end(s) < s.len() && separator(s[long_prefix_end(s)], true)
}

/// The components of a path in long form.
pub open spec fn long_components(s: Seq<char>) -> Seq<Seq<char>> {
    let end = long_prefix_end(s);
    components(
        Seq::empty(),
        s.skip(if long_rooted(s) {
            end + 1
        } else {
            end
        }),
        true,
    )
}

/// A path seen from one in long form, which knows no dots: they are taken out. A path that has a root
/// keeps only the other's prefix.
pub open spec fn long_joined(base: Seq<char>, path: Seq<char>) -> Seq<char> {
    let rooted = separator(path[0], true);
    let own = if rooted {
        Seq::empty()
    } else {
        long_components(base)
    };
    long_form(
        base.take(long_prefix_end(base)),
        rooted || long_rooted(base),
        components(own, path, false),
    )
}

/// A path seen from another. One with a drive, a share or, away from Windows, a root stands alone;
/// one that has only a root keeps the other's drive or share.
pub open spec fn joined(base: Seq<char>, path: Seq<char>, windows: bool) -> Seq<char> {
    if absolute(path, windows) || prefix_end(path, windows) > 0 {
        path
    } else if long(base, windows) && path.len() > 0 {
        long_joined(base, path)
    } else if path.len() > 0 && separator(path[0], windows) {
        base.take(prefix_end(base, windows)) + path
    } else if base.len() == 0 || separator(base.last(), windows) || (has_drive(base, windows)
        && base.len() == 2) {
        base + path
    } else {
        base.push(main_separator(windows)) + path
    }
}

/// Whether the component at a position is the one that leads to the parent.
pub open spec fn parent_component_at(s: Seq<char>, i: int, windows: bool) -> bool {
    &&& 0 <= i && i + 2 <= s.len()
    &&& s[i] == '.' && s[i + 1] == '.'
    &&& i == 0 || separator(s[i - 1], windows)
    &&& i + 2 == s.len() || separator(s[i + 2], windows)
}

/// Whether a path stays below the directory it is seen from: it has no drive, no share and no root,
/// and no component leads to a parent.
pub open spec fn safe_relative(s: Seq<char>, windows: bool) -> bool {
    &&& prefix_end(s, windows) == 0
    &&& !(s.len() > 0 && separator(s[0], windows))
    &&& forall|i: int| !#[trigger] parent_component_at(s, i, windows)
}

fn is_separator(c: char, windows: bool) -> (r: bool)
    ensures
        r == separator(c, windows),
{
    c == '/' || (windows && c == '\\')
}

fn find_separator(chars: &Vec<char>, from: usize, windows: bool) -> (at: usize)
    requires
        from <= chars@.len(),
    ensures
        at == separator_from(chars@, from as int, windows),
        from <= at <= chars@.len(),
{
    let mut at: usize = from;
    while at < chars.len() && !is_separator(chars[at], windows)
        invariant
            from <= at <= chars@.len(),
            separator_from(chars@, from as int, windows) == separator_from(
                chars@,
                at as int,
                windows,
            ),
        decreases chars@.len() - at,
    {
        at = at + 1;
    }
    at
}

fn is_long(chars: &Vec<char>, windows: bool) -> (r: bool)
    ensures
        r == long(chars@, windows),
{
    windows && chars.len() >= 4 && chars[0] == '\\' && chars[1] == '\\' && chars[2] == '?'
        && chars[3] == '\\'
}

fn find_prefix_end(chars: &Vec<char>, windows: bool) -> (end: usize)
    ensures
        end == prefix_end(chars@, windows),
        end <= chars@.len(),
{
    let count: usize = chars.len();
    if is_long(chars, windows) {
        return find_long_prefix_end(chars);
    }
    if !windows || count < 2 {
        return 0;
    }
    if chars[1] == ':' && (('a' <= chars[0] && chars[0] <= 'z') || ('A' <= chars[0] && chars[0]
        <= 'Z')) {
        return 2;
    }
    if is_separator(chars[0], windows) && is_separator(chars[1], windows) {
        let server = find_separator(chars, 2, windows);
        if server > 2 && server < count {
            let share = find_separator(chars, server + 1, windows);
            if share > server + 1 {
                return share;
            }
        }
    }
    0
}

fn find_body_start(chars: &Vec<char>, windows: bool) -> (start: usize)
    ensures
        start == body_start(chars@, windows),
        start <= chars@.len(),
{
    let prefix = find_prefix_end(chars, windows);
    if prefix < chars.len() && is_separator(chars[prefix], windows) {
        prefix + 1
    } else {
        prefix
    }
}

fn find_trimmed_len(chars: &Vec<char>, n: usize, windows: bool) -> (end: usize)
    requires
        n <= chars@.len(),
    ensures
        end == trimmed_len(chars@, n as int, windows),
        end <= n,
{
    let start = find_body_start(chars, windows);
    let literal = is_long(chars, windows);
    let mut end: usize = n;
    while end > start && ((literal && chars[end - 1] == '\\') || (!literal && (is_separator(
        chars[end - 1],
        windows,
    ) || (chars[end - 1] == '.' && end >= 2 && is_separator(chars[end - 2], windows)))))
        invariant
            end <= n <= chars@.len(),
            literal == long(chars@, windows),
            start == body_start(chars@, windows),
            trimmed_len(chars@, n as int, windows) == trimmed_len(chars@, end as int, windows),
        decreases end,
    {
        end = end - 1;
    }
    end
}

fn find_component_start(chars: &Vec<char>, n: usize, windows: bool) -> (at: usize)
    requires
        n <= chars@.len(),
    ensures
        at == component_start(chars@, n as int, windows),
        at <= n,
{
    let start = find_body_start(chars, windows);
    let literal = is_long(chars, windows);
    let mut at: usize = n;
    while at > start && !((literal && chars[at - 1] == '\\') || (!literal && is_separator(
        chars[at - 1],
        windows,
    )))
        invariant
            at <= n <= chars@.len(),
            literal == long(chars@, windows),
            start == body_start(chars@, windows),
            component_start(chars@, n as int, windows) == component_start(
                chars@,
                at as int,
                windows,
            ),
        decreases at,
    {
        at = at - 1;
    }
    at
}

/// Whether a path is absolute.
pub fn is_absolute(path: &str, windows: bool) -> (r: bool)
    ensures
        r == absolute(path@, windows),
{
    let chars = chars_of(path);
    let prefix = find_prefix_end(&chars, windows);
    let start = find_body_start(&chars, windows);
    if windows {
        let drive = chars.len() >= 2 && chars[1] == ':' && (('a' <= chars[0] && chars[0] <= 'z') || (
        'A' <= chars[0] && chars[0] <= 'Z'));
        if drive {
            return start > 2;
        }
        prefix > 0
    } else {
        start > 0
    }
}

/// The last component of a path, where that is a name.
pub fn path_file_name(path: &str, windows: bool) -> (name: Option<String>)
    ensures
        match name {
            Some(n) => file_name(path@, windows) == Some(n@),
            None => file_name(path@, windows) is None,
        },
{
    let chars = chars_of(path);
    let end = find_trimmed_len(&chars, chars.len(), windows);
    let body = find_body_start(&chars, windows);
    if end <= body {
        return None;
    }
    let start = find_component_start(&chars, end, windows);
    let ghost component = chars@.subrange(start as int, end as int);
    if end - start == 1 && chars[start] == '.' {
        assert(component =~= seq!['.']);
        return None;
    }
    if end - start == 2 && chars[start] == '.' && chars[start + 1] == '.' {
        assert(component =~= seq!['.', '.']);
        return None;
    }
    proof {
        assert(component != seq!['.']) by {
            if component == seq!['.'] {
                assert(component.len() == 1 && component[0] == '.');
            }
        }
        assert(component != seq!['.', '.']) by {
            if component == seq!['.', '.'] {
                assert(component.len() == 2 && component[0] == '.' && component[1] == '.');
            }
        }
    }
    Some(text_between(&chars, start, end))
}

/// A path without its last component.
pub fn path_parent(path: &str, windows: bool) -> (r: Option<String>)
    ensures
        match r {
            Some(p) => parent(path@, windows) == Some(p@),
            None => parent(path@, windows) is None,
        },
{
    let chars = chars_of(path);
    let end = find_trimmed_len(&chars, chars.len(), windows);
    let body = find_body_start(&chars, windows);
    if end <= body {
        return None;
    }
    let start = find_component_start(&chars, end, windows);
    let stop = find_trimmed_len(&chars, start, windows);
    let up = text_between(&chars, 0, stop);
    assert(up@ == path@.take(stop as int));
    Some(up)
}

/// A directory below the user's own data: where the system keeps such data, or else where it is by
/// convention below the home directory.
pub open spec fn data_place(
    data: Option<String>,
    home: Option<String>,
    name: Seq<char>,
    windows: bool,
) -> Seq<char> {
    let home = match home {
        Some(h) => h@,
        None => "."@,
    };
    let root = match data {
        Some(d) => d@,
        None => joined(joined(home, ".local"@, windows), "share"@, windows),
    };
    joined(root, name, windows)
}

/// A directory below the user's own data.
pub fn data_directory(data: &Option<String>, home: &Option<String>, name: &str, windows: bool) -> (
    path: String)
    ensures
        path@ == data_place(*data, *home, name@, windows),
{
    let root = match data {
        Some(d) => d.clone(),
        None => {
            let home = match home {
                Some(h) => h.clone(),
                None => ".".to_owned(),
            };
            join_path(join_path(home.as_str(), ".local", windows).as_str(), "share", windows)
        },
    };
    join_path(root.as_str(), name, windows)
}

fn find_backslash(chars: &Vec<char>, from: usize) -> (at: usize)
    requires
        from <= chars@.len(),
    ensures
        at == backslash_from(chars@, from as int),
        from <= at <= chars@.len(),
{
    let mut at: usize = from;
    while at < chars.len() && chars[at] != '\\'
        invariant
            from <= at <= chars@.len(),
            backslash_from(chars@, from as int) == backslash_from(chars@, at as int),
        decreases chars@.len() - at,
    {
        at = at + 1;
    }
    at
}

fn find_long_prefix_end(chars: &Vec<char>) -> (end: usize)
    requires
        chars@.len() >= 4,
    ensures
        end == long_prefix_end(chars@),
        4 <= end <= chars@.len(),
{
    let count: usize = chars.len();
    if count >= 8 && chars[4] == 'U' && chars[5] == 'N' && chars[6] == 'C' && is_separator(
        chars[7],
        true,
    ) {
        let server = find_backslash(chars, 8);
        if server < count {
            let share = find_backslash(chars, server + 1);
            if share > server + 1 {
                return share;
            }
        }
        return server;
    }
    proof {
        if count >= 6 {
            assert(chars@.skip(4)[0] == chars@[4]);
            assert(chars@.skip(4)[1] == chars@[5]);
        }
    }
    if count >= 6 && chars[5] == ':' && (('a' <= chars[4] && chars[4] <= 'z') || ('A' <= chars[4]
        && chars[4] <= 'Z')) && (count == 6 || is_separator(chars[6], true)) {
        return 6;
    }
    find_backslash(chars, 4)
}

fn is_text(text: &String, chars: &[char]) -> (r: bool)
    ensures
        r == (text@ == chars@),
{
    let own = chars_of(text.as_str());
    if own.len() != chars.len() {
        return false;
    }
    let mut i: usize = 0;
    while i < own.len()
        invariant
            i <= own@.len(),
            own@ == text@,
            own@.len() == chars@.len(),
            forall|j: int| 0 <= j < i ==> own@[j] == chars@[j],
        decreases own@.len() - i,
    {
        if own[i] != chars[i] {
            return false;
        }
        i = i + 1;
    }
    assert(text@ =~= chars@);
    true
}

fn add_component(done: &mut Vec<String>, name: String, literal: bool)
    ensures
        text_views(final(done)@) == with_component(text_views(old(done)@), name@, literal),
{
    if name.as_str().is_empty() {
        return;
    }
    let dot = is_text(&name, &['.']);
    let dots = is_text(&name, &['.', '.']);
    assert(['.']@ =~= seq!['.']);
    assert(['.', '.']@ =~= seq!['.', '.']);
    if !literal && dot {
        return;
    }
    if !literal && dots {
        let count: usize = done.len();
        if count > 0 {
            let ghost views = text_views(done@);
            assert(views.last() == done@[count - 1]@);
            if !is_text(&done[count - 1], &['.']) && !is_text(&done[count - 1], &['.', '.']) {
                done.pop();
                assert(text_views(done@) =~= views.drop_last());
            }
        }
        return;
    }
    proof {
        lemma_text_views_push(done@, name);
    }
    done.push(name);
}

fn add_components(done: Vec<String>, chars: &Vec<char>, from: usize, literal: bool) -> (names: Vec<
    String,
>)
    requires
        from <= chars@.len(),
    ensures
        text_views(names@) == components(text_views(done@), chars@.skip(from as int), literal),
{
    let ghost start = text_views(done@);
    let ghost s = chars@.skip(from as int);
    let mut names = done;
    let mut name = String::new();
    let mut i: usize = from;
    assert(s.take(0).len() == 0);
    while i < chars.len()
        invariant
            from <= i <= chars@.len(),
            s == chars@.skip(from as int),
            (text_views(names@), name@) == walked(start, s.take(i - from), literal),
        decreases chars@.len() - i,
    {
        let c = chars[i];
        proof {
            assert(s.take(i + 1 - from).drop_last() =~= s.take(i - from));
            assert(s.take(i + 1 - from).last() == c);
        }
        if c == '\\' || (!literal && c == '/') {
            add_component(&mut names, name, literal);
            name = String::new();
        } else {
            name.push(c);
        }
        i = i + 1;
    }
    assert(s.take(i - from) =~= s);
    add_component(&mut names, name, literal);
    names
}

fn write_long_form(prefix: String, rooted: bool, names: &Vec<String>) -> (r: String)
    ensures
        r@ == long_form(prefix@, rooted, text_views(names@)),
{
    let ghost views = text_views(names@);
    let mut r = prefix;
    let ghost start = r@;
    if rooted && names.len() == 0 {
        r.push('\\');
        return r;
    }
    let mut i: usize = 0;
    assert(start + backslashed(views.take(0)) =~= start);
    while i < names.len()
        invariant
            i <= names@.len(),
            views == text_views(names@),
            r@ == start + backslashed(views.take(i as int)),
        decreases names@.len() - i,
    {
        proof {
            assert(views.take(i + 1).drop_last() =~= views.take(i as int));
            assert(views.take(i + 1).last() == names@[i as int]@);
        }
        r.push('\\');
        append_text(&mut r, names[i].as_str());
        assert(r@ =~= start + backslashed(views.take(i + 1)));
        i = i + 1;
    }
    assert(views.take(i as int) =~= views);
    r
}

fn join_long(from: &Vec<char>, chars: &Vec<char>) -> (r: String)
    requires
        long(from@, true),
        chars@.len() > 0,
    ensures
        r@ == long_joined(from@, chars@),
{
    let end = find_long_prefix_end(from);
    let prefix = text_between(from, 0, end);
    assert(prefix@ == from@.take(end as int));
    let rooted = is_separator(chars[0], true);
    let own_root = end < from.len() && is_separator(from[end], true);
    let none: Vec<String> = Vec::new();
    assert(text_views(none@) =~= Seq::<Seq<char>>::empty());
    let own = if rooted {
        none
    } else {
        add_components(
            none,
            from,
            if own_root {
                end + 1
            } else {
                end
            },
            true,
        )
    };
    let names = add_components(own, chars, 0, false);
    assert(chars@.skip(0) =~= chars@);
    write_long_form(prefix, rooted || own_root, &names)
}

/// A path seen from another.
pub fn join_path(base: &str, path: &str, windows: bool) -> (r: String)
    ensures
        r@ == joined(base@, path@, windows),
{
    let from = chars_of(base);
    let chars = chars_of(path);
    let prefix = find_prefix_end(&chars, windows);
    if is_absolute(path, windows) || prefix > 0 {
        return path.to_owned();
    }
    if chars.len() > 0 && is_long(&from, windows) {
        return join_long(&from, &chars);
    }
    if chars.len() > 0 && is_separator(chars[0], windows) {
        let kept = find_prefix_end(&from, windows);
        let mut r = text_between(&from, 0, kept);
        assert(r@ == base@.take(kept as int));
        append_text(&mut r, path);
        return r;
    }
    let count: usize = from.len();
    let mut r = text_of(&from);
    let bare_drive = windows && count == 2 && from[1] == ':' && (('a' <= from[0] && from[0] <= 'z')
        || ('A' <= from[0] && from[0] <= 'Z'));
    if count > 0 && !is_separator(from[count - 1], windows) && !bare_drive {
        r.push(
            if windows {
                '\\'
            } else {
                '/'
            },
        );
    }
    append_text(&mut r, path);
    r
}

/// Whether a path stays below the directory it is seen from.
pub fn is_safe_relative_path(path: &str, windows: bool) -> (r: bool)
    ensures
        r == safe_relative(path@, windows),
{
    let chars = chars_of(path);
    let count: usize = chars.len();
    if find_prefix_end(&chars, windows) > 0 {
        return false;
    }
    if count > 0 && is_separator(chars[0], windows) {
        return false;
    }
    let mut i: usize = 0;
    while i < count
        invariant
            i <= count,
            count == chars@.len(),
            chars@ == path@,
            forall|j: int| 0 <= j < i ==> !#[trigger] parent_component_at(path@, j, windows),
        decreases count - i,
    {
        if count - i >= 2 && chars[i] == '.' && chars[i + 1] == '.' && (i == 0 || is_separator(
            chars[i - 1],
            windows,
        )) && (count - i == 2 || is_separator(chars[i + 2], windows)) {
            assert(parent_component_at(path@, i as int, windows));
            return false;
        }
        i = i + 1;
    }
    assert forall|j: int| !#[trigger] parent_component_at(path@, j, windows) by {}
    true
}

/// A path that stays below its directory, seen from a directory that itself leads to no parent,
/// leads to none either: it cannot get out. A directory in long form keeps its components in front
/// rather than its text (see `law_safe_paths_stay_inside_long_forms`).
pub proof fn law_safe_paths_stay_inside(base: Seq<char>, path: Seq<char>, windows: bool)
    requires
        safe_relative(path, windows),
        !long(base, windows),
        base.len() > 0,
        !(has_drive(base, windows) && base.len() == 2),
        forall|i: int| !#[trigger] parent_component_at(base, i, windows),
    ensures
        joined(base, path, windows).take(base.len() as int) == base,
        forall|i: int| !#[trigger] parent_component_at(joined(base, path, windows), i, windows),
{
    let whole = joined(base, path, windows);
    assert(!absolute(path, windows));
    assert(whole.take(base.len() as int) =~= base);
    let shift = whole.len() - path.len();
    assert(shift > 0);
    assert(separator(whole[shift - 1], windows));
    assert forall|i: int| !#[trigger] parent_component_at(whole, i, windows) by {
        if parent_component_at(whole, i, windows) {
            if i >= shift {
                assert(parent_component_at(path, i - shift, windows)) by {
                    assert(whole[i] == path[i - shift]);
                    assert(whole[i + 1] == path[i - shift + 1]);
                    if i > shift {
                        assert(whole[i - 1] == path[i - shift - 1]);
                    }
                    if i + 2 < whole.len() {
                        assert(whole[i + 2] == path[i - shift + 2]);
                    }
                }
            } else {
                assert(parent_component_at(base, i, windows)) by {
                    assert(i + 2 <= base.len());
                    assert(whole[i] == base[i]);
                    assert(whole[i + 1] == base[i + 1]);
                    if i > 0 {
                        assert(whole[i - 1] == base[i - 1]);
                    }
                    if i + 2 < base.len() {
                        assert(whole[i + 2] == base[i + 2]);
                    }
                }
            }
        }
    }
}

/// A path that stays below its directory, seen from a directory in long form, gives that directory's
/// prefix, its root and its components, with more components behind them.
pub proof fn law_safe_paths_stay_inside_long_forms(base: Seq<char>, path: Seq<char>)
    requires
        safe_relative(path, true),
        long(base, true),
        path.len() > 0,
    ensures
        joined(base, path, true) == long_form(
            base.take(long_prefix_end(base)),
            long_rooted(base),
            long_components(base) + components(Seq::empty(), path, false),
        ),
{
    let own = long_components(base);
    let none = Seq::<Seq<char>>::empty();
    assert(!absolute(path, true));
    lemma_current(own, path, false);
    lemma_current(none, path, false);
    lemma_walk_behind(own, path);
    let last = walked(none, path, false);
    if last.1 == seq!['.', '.'] {
        let i = path.len() - 2;
        assert(path.skip(i) == last.1);
        assert(path.skip(i)[0] == '.' && path.skip(i)[1] == '.');
        assert(parent_component_at(path, i, true));
    }
    assert(components(own, path, false) =~= own + components(none, path, false));
}

/// What there is of the next component is the end of the text, behind what cuts components.
proof fn lemma_current(done: Seq<Seq<char>>, s: Seq<char>, literal: bool)
    ensures
        ({
            let name = walked(done, s, literal).1;
            &&& name.len() <= s.len()
            &&& name == s.skip(s.len() - name.len())
            &&& name.len() == s.len() || cuts(s[s.len() - name.len() - 1], literal)
        }),
    decreases s.len(),
{
    let name = walked(done, s, literal).1;
    if s.len() > 0 {
        lemma_current(done, s.drop_last(), literal);
        assert(name =~= s.skip(s.len() - name.len()));
    } else {
        assert(name =~= s.skip(0));
    }
}

/// Where no component is two dots, components before a text stay before those of the text.
proof fn lemma_walk_behind(done: Seq<Seq<char>>, s: Seq<char>)
    requires
        forall|i: int|
            i + 2 < s.len() ==> !#[trigger] parent_component_at(s, i, true),
    ensures
        walked(done, s, false).0 == done + walked(Seq::empty(), s, false).0,
        walked(done, s, false).1 == walked(Seq::empty(), s, false).1,
    decreases s.len(),
{
    let none = Seq::<Seq<char>>::empty();
    if s.len() == 0 {
        assert(done + none =~= done);
    } else {
        let front = s.drop_last();
        assert forall|i: int| i + 2 < front.len() implies !#[trigger] parent_component_at(
            front,
            i,
            true,
        ) by {
            if parent_component_at(front, i, true) {
                assert(parent_component_at(s, i, true));
            }
        }
        lemma_walk_behind(done, front);
        let before = walked(none, front, false);
        if cuts(s.last(), false) {
            lemma_current(none, front, false);
            if before.1 == seq!['.', '.'] {
                let i = front.len() - 2;
                assert(front.skip(i) == before.1);
                assert(front.skip(i)[0] == '.' && front.skip(i)[1] == '.');
                assert(parent_component_at(s, i, true));
            }
            assert(walked(done, s, false).0 =~= done + walked(none, s, false).0);
        }
    }
}

/// Whether a text is a single name: no separator stands in it, and it is neither a drive nor dots.
pub open spec fn plain_name(name: Seq<char>, windows: bool) -> bool {
    &&& prefix_end(name, windows) == 0
    &&& name.len() > 0
    &&& forall|i: int| 0 <= i < name.len() ==> !separator(#[trigger] name[i], windows)
    &&& name != seq!['.']
    &&& name != seq!['.', '.']
}

/// What stands before a name that is seen from a directory.
pub open spec fn stem(base: Seq<char>, windows: bool) -> Seq<char> {
    if long(base, windows) {
        (base.take(long_prefix_end(base)) + backslashed(long_components(base))).push('\\')
    } else if base.len() == 0 || separator(base.last(), windows) || (has_drive(base, windows)
        && base.len() == 2) {
        base
    } else {
        base.push(main_separator(windows))
    }
}

/// A name behind a directory: what stands before it depends on the directory alone.
pub proof fn lemma_name_behind(base: Seq<char>, name: Seq<char>, windows: bool)
    requires
        plain_name(name, windows),
    ensures
        joined(base, name, windows) == stem(base, windows) + name,
{
    assert(!separator(name[0], windows));
    assert(!absolute(name, windows));
    if long(base, windows) {
        let own = long_components(base);
        lemma_walk_name(own, name);
        assert(components(own, name, false) == own.push(name));
        assert(own.push(name).drop_last() =~= own);
        assert(joined(base, name, windows) =~= stem(base, windows) + name);
    }
}

proof fn lemma_walk_name(done: Seq<Seq<char>>, name: Seq<char>)
    requires
        forall|i: int| 0 <= i < name.len() ==> !separator(#[trigger] name[i], true),
    ensures
        walked(done, name, false) == (done, name),
    decreases name.len(),
{
    if name.len() > 0 {
        assert(!separator(name[name.len() - 1], true));
        assert forall|i: int| 0 <= i < name.drop_last().len() implies !separator(
            #[trigger] name.drop_last()[i],
            true,
        ) by {
            assert(!separator(name[i], true));
        }
        lemma_walk_name(done, name.drop_last());
        assert(name.drop_last().push(name.last()) =~= name);
    } else {
        assert(name =~= Seq::<char>::empty());
    }
}

/// Whether a path in long form begins like a share, but names none: what comes behind it would be taken
/// for the share.
pub open spec fn lacks_share(s: Seq<char>, windows: bool) -> bool {
    &&& long(s, windows)
    &&& s.len() >= 7 && s[4] == 'U' && s[5] == 'N' && s[6] == 'C'
    &&& s.len() == 7 || (separator(s[7], true) && !({
        let server = backslash_from(s, 8);
        server < s.len() && backslash_from(s, server + 1) > server + 1
    }))
}

proof fn lemma_backslash_at(s: Seq<char>, from: int, at: int)
    requires
        0 <= from <= at < s.len(),
        s[at] == '\\',
        forall|i: int| from <= i < at ==> s[i] != '\\',
    ensures
        backslash_from(s, from) == at,
    decreases at - from,
{
    if from < at {
        lemma_backslash_at(s, from + 1, at);
    }
}

/// A path in long form keeps its prefix when it grows behind it.
proof fn lemma_long_prefix_kept(base: Seq<char>, whole: Seq<char>)
    requires
        long(base, true),
        !lacks_share(base, true),
        long_prefix_end(base) < whole.len(),
        whole.take(long_prefix_end(base)) == base.take(long_prefix_end(base)),
        whole[long_prefix_end(base)] == '\\',
    ensures
        long(whole, true),
        long_prefix_end(whole) == long_prefix_end(base),
{
    let end = long_prefix_end(base);
    lemma_long_prefix_end(base);
    assert forall|i: int| 0 <= i < end implies whole[i] == base[i] by {
        assert(whole.take(end)[i] == base.take(end)[i]);
    }
    if base.len() >= 8 && base[4] == 'U' && base[5] == 'N' && base[6] == 'C' && separator(
        base[7],
        true,
    ) {
        let server = backslash_from(base, 8);
        lemma_backslash_from(base, 8);
        lemma_backslash_from(base, server + 1);
        lemma_backslash_at(whole, 8, server);
        lemma_backslash_at(whole, server + 1, end);
    } else if base.len() >= 6 && has_drive(base.skip(4), true) && (base.len() == 6 || separator(
        base[6],
        true,
    )) {
        assert(whole.skip(4)[0] == base.skip(4)[0]);
        assert(whole.skip(4)[1] == base.skip(4)[1]);
    } else {
        lemma_backslash_from(base, 4);
        lemma_backslash_at(whole, 4, end);
        assert(!(whole.len() >= 8 && whole[4] == 'U' && whole[5] == 'N' && whole[6] == 'C'
            && separator(whole[7], true))) by {
            if whole.len() >= 8 && whole[4] == 'U' && whole[5] == 'N' && whole[6] == 'C' {
                assert(end >= 7);
            }
        }
        assert(!(whole.len() >= 6 && has_drive(whole.skip(4), true) && (whole.len() == 6
            || separator(whole[6], true)))) by {
            if whole.len() >= 6 && has_drive(whole.skip(4), true) {
                assert(whole[4] == whole.skip(4)[0] && whole[5] == whole.skip(4)[1]);
                assert(end >= 6);
                assert(base.skip(4)[0] == whole[4] && base.skip(4)[1] == whole[5]);
            }
        }
    }
}

proof fn lemma_backslashed_first(names: Seq<Seq<char>>)
    ensures
        names.len() > 0 ==> backslashed(names).len() > 0 && backslashed(names)[0] == '\\',
    decreases names.len(),
{
    if names.len() > 0 {
        let front = backslashed(names.drop_last()).push('\\');
        lemma_backslashed_first(names.drop_last());
        assert(front[0] == '\\');
        assert((front + names.last())[0] == front[0]);
    }
}

proof fn lemma_long_prefix_end(s: Seq<char>)
    requires
        s.len() >= 4,
    ensures
        4 <= long_prefix_end(s) <= s.len(),
{
    lemma_backslash_from(s, 4);
    if s.len() >= 8 {
        lemma_backslash_from(s, 8);
        if backslash_from(s, 8) < s.len() {
            lemma_backslash_from(s, backslash_from(s, 8) + 1);
        }
    }
}

proof fn lemma_backslash_from(s: Seq<char>, from: int)
    requires
        0 <= from <= s.len(),
    ensures
        from <= backslash_from(s, from) <= s.len(),
        forall|i: int| from <= i < backslash_from(s, from) ==> s[i] != '\\',
        backslash_from(s, from) < s.len() ==> s[backslash_from(s, from)] == '\\',
    decreases s.len() - from,
{
    if from < s.len() && s[from] != '\\' {
        lemma_backslash_from(s, from + 1);
    }
}

/// The components of a path that is joined from a directory and a name begin before the name.
proof fn lemma_body_before_the_name(base: Seq<char>, name: Seq<char>, windows: bool)
    requires
        plain_name(name, windows),
        absolute(base, windows),
        !lacks_share(base, windows),
        base.len() > 0,
    ensures
        0 <= body_start(stem(base, windows) + name, windows) <= stem(base, windows).len(),
        separator(stem(base, windows).last(), windows),
        stem(base, windows).len() > 0,
{
    let whole = stem(base, windows) + name;
    let shift = stem(base, windows).len() as int;
    lemma_body_start(whole, windows);
    if long(base, windows) {
        lemma_long_prefix_end(base);
        let end = long_prefix_end(base);
        let own = long_components(base);
        lemma_backslashed_first(own);
        assert(whole.take(end) =~= base.take(end));
        assert(whole[end] == '\\');
        lemma_long_prefix_kept(base, whole);
    } else {
        assert(whole.take(base.len() as int) =~= base);
        lemma_prefix_kept(base, whole, windows);
    }
}

/// The name in a path joined from a directory and a name is that name, but where the directory begins
/// like a share and names none.
pub proof fn law_joined_name_is_the_name(base: Seq<char>, name: Seq<char>, windows: bool)
    requires
        plain_name(name, windows),
        base.len() > 0,
        absolute(base, windows),
        !lacks_share(base, windows),
    ensures
        file_name(joined(base, name, windows), windows) == Some(name),
{
    let whole = joined(base, name, windows);
    let shift = whole.len() - name.len();
    lemma_name_behind(base, name, windows);
    lemma_body_before_the_name(base, name, windows);
    assert(whole.last() == name.last());
    assert(!separator(name[name.len() - 1], windows));
    let n = whole.len() as int;
    assert(trimmed_len(whole, n, windows) == n) by {
        if whole[n - 1] == '.' && n >= 2 && separator(whole[n - 2], windows) {
            if name.len() == 1 {
                assert(name =~= seq!['.']);
            } else {
                assert(whole[n - 2] == name[name.len() - 2]);
            }
        }
    }
    assert(whole[shift - 1] == stem(base, windows).last());
    assert forall|i: int| shift <= i < n implies !parts(whole, #[trigger] whole[i], windows) by {
        assert(whole[i] == name[i - shift]);
    }
    lemma_component_start(whole, shift, n, windows);
    assert(whole.subrange(shift, n) =~= name);
}

proof fn lemma_component_start(s: Seq<char>, start: int, n: int, windows: bool)
    requires
        body_start(s, windows) <= start <= n <= s.len(),
        start == body_start(s, windows) || parts(s, s[start - 1], windows),
        forall|i: int| start <= i < n ==> !parts(s, #[trigger] s[i], windows),
        0 <= body_start(s, windows),
    ensures
        component_start(s, n, windows) == start,
    decreases n,
{
    if n > start {
        lemma_component_start(s, start, n - 1, windows);
    }
}

proof fn lemma_separator_from(s: Seq<char>, from: int, windows: bool)
    requires
        0 <= from,
    ensures
        from <= separator_from(s, from, windows),
        from <= s.len() ==> separator_from(s, from, windows) <= s.len(),
    decreases s.len() - from,
{
    if from < s.len() && !separator(s[from], windows) {
        lemma_separator_from(s, from + 1, windows);
    }
}

proof fn lemma_separator_kept(base: Seq<char>, whole: Seq<char>, from: int, windows: bool)
    requires
        0 <= from <= base.len() <= whole.len(),
        whole.take(base.len() as int) == base,
        separator_from(base, from, windows) < base.len() || whole.len() == base.len() || separator(
            whole[base.len() as int],
            windows,
        ),
    ensures
        separator_from(whole, from, windows) == separator_from(base, from, windows),
    decreases base.len() - from,
{
    if from < base.len() {
        assert(whole[from] == base[from]);
        if !separator(base[from], windows) {
            lemma_separator_kept(base, whole, from + 1, windows);
        }
    }
}

/// An absolute path keeps its drive, its share and its root when it grows behind a separator.
proof fn lemma_prefix_kept(base: Seq<char>, whole: Seq<char>, windows: bool)
    requires
        absolute(base, windows),
        !long(base, windows),
        base.len() < whole.len(),
        whole.take(base.len() as int) == base,
        separator(base.last(), windows) || separator(whole[base.len() as int], windows),
        !separator(base.last(), windows) ==> base.len() + 1 < whole.len(),
    ensures
        0 <= body_start(whole, windows) <= base.len() + (if separator(base.last(), windows) {
            0int
        } else {
            1int
        }),
{
    assert(base[0] == whole[0]);
    if windows {
        assert(base[1] == whole[1]);
        if has_drive(base, windows) {
            assert(base[2] == whole[2]);
        } else {
            let server = separator_from(base, 2, windows);
            assert(base[2] == whole[2]);
            assert(server < base.len());
            assert(separator_from(base, server + 1, windows) > server + 1);
            lemma_separator_from(base, 2, windows);
            lemma_separator_from(base, server + 1, windows);
            assert(base[3] == whole[3]);
            lemma_separator_from(base, server + 1, windows);
            lemma_separator_kept(base, whole, 2, windows);
            let share = separator_from(base, server + 1, windows);
            if share < base.len() {
                lemma_separator_kept(base, whole, server + 1, windows);
            } else {
                if separator(base.last(), windows) {
                    lemma_separator_stops(base, server + 1, base.len() - 1, windows);
                }
                lemma_separator_kept(base, whole, server + 1, windows);
            }
        }
    }
}

proof fn lemma_separator_stops(s: Seq<char>, from: int, at: int, windows: bool)
    requires
        0 <= from <= at < s.len(),
        separator(s[at], windows),
    ensures
        separator_from(s, from, windows) <= at,
    decreases at - from,
{
    if from < at && !separator(s[from], windows) {
        lemma_separator_stops(s, from + 1, at, windows);
    }
}

/// Trimming the end of a path makes it no longer, and keeps what its components begin behind.
pub proof fn lemma_trimmed_len(s: Seq<char>, n: int, windows: bool)
    ensures
        trimmed_len(s, n, windows) <= n,
        n >= 0 ==> trimmed_len(s, n, windows) >= 0,
    decreases n,
{
    if n > body_start(s, windows) && n <= s.len() && n > 0 {
        lemma_trimmed_len(s, n - 1, windows);
    }
}

/// The component that ends a trimmed path is not empty.
pub proof fn lemma_component_shrinks(s: Seq<char>, n: int, windows: bool)
    requires
        n == trimmed_len(s, s.len() as int, windows),
        n > body_start(s, windows),
    ensures
        component_start(s, n, windows) < n,
        0 < n,
        0 <= component_start(s, n, windows),
{
    lemma_body_start(s, windows);
    lemma_trimmed_end(s, s.len() as int, windows);
    lemma_trimmed_len(s, s.len() as int, windows);
    lemma_component_start_bound(s, n - 1, windows);
}

proof fn lemma_body_start(s: Seq<char>, windows: bool)
    ensures
        0 <= body_start(s, windows) <= s.len(),
{
    if long(s, windows) {
        lemma_long_prefix_end(s);
    }
    lemma_separator_from(s, 2, windows);
    lemma_separator_from(s, separator_from(s, 2, windows) + 1, windows);
}

proof fn lemma_trimmed_end(s: Seq<char>, n: int, windows: bool)
    requires
        0 <= n <= s.len(),
    ensures
        trimmed_len(s, n, windows) > body_start(s, windows) ==> !parts(
            s,
            s[trimmed_len(s, n, windows) - 1],
            windows,
        ),
    decreases n,
{
    lemma_body_start(s, windows);
    if n > body_start(s, windows) && n > 0 {
        lemma_trimmed_end(s, n - 1, windows);
    }
}

proof fn lemma_component_start_bound(s: Seq<char>, n: int, windows: bool)
    ensures
        component_start(s, n, windows) <= n,
        n >= 0 ==> component_start(s, n, windows) >= 0,
    decreases n,
{
    if n > body_start(s, windows) && n <= s.len() && n > 0 {
        lemma_component_start_bound(s, n - 1, windows);
    }
}

proof fn lemma_walk_last(done: Seq<Seq<char>>, front: Seq<char>, name: Seq<char>)
    requires
        front.len() > 0 ==> front.last() == '\\',
        forall|i: int| 0 <= i < name.len() ==> #[trigger] name[i] != '\\',
    ensures
        walked(done, front + name, true).1 == name,
    decreases name.len(),
{
    let whole = front + name;
    if name.len() > 0 {
        assert(name[name.len() - 1] != '\\');
        assert forall|i: int| 0 <= i < name.drop_last().len() implies #[trigger] name.drop_last()[i]
            != '\\' by {
            assert(name[i] != '\\');
        }
        lemma_walk_last(done, front, name.drop_last());
        assert(whole.drop_last() =~= front + name.drop_last());
        assert(name.drop_last().push(name.last()) =~= name);
    } else {
        assert(whole =~= front);
        assert(name =~= Seq::<char>::empty());
    }
}

/// What comes behind a directory with a plain name comes behind that name and what parts the two.
pub proof fn lemma_stem_ends_with_name(base: Seq<char>, name: Seq<char>, windows: bool)
    requires
        plain_name(name, windows),
        name.len() >= 3,
    ensures
        ({
            let front = stem(joined(base, name, windows), windows);
            &&& front.len() > name.len()
            &&& front.subrange(front.len() - 1 - name.len(), front.len() - 1) == name
            &&& front.last() == main_separator(windows)
        }),
{
    lemma_name_behind(base, name, windows);
    let before = stem(base, windows);
    let whole = before + name;
    let n = before.len() as int;
    let front = stem(whole, windows);
    assert(!separator(name[name.len() - 1], windows));
    assert(whole.last() == name[name.len() - 1]);
    if long(whole, windows) {
        assert(n >= 4) by {
            if n < 4 {
                assert(whole[3] == name[3 - n]);
                assert(!separator(name[3 - n], windows));
            }
        }
        assert(before.last() == '\\') by {
            if !long(base, windows) {
                if before.len() == base.len() {
                    assert(base =~= before);
                    assert(base[0] == whole[0] && base[1] == whole[1] && base[2] == whole[2] && base[3]
                        == whole[3]);
                }
            }
        }
        let end = long_prefix_end(whole);
        lemma_long_prefix_end(whole);
        lemma_long_prefix_stop(whole);
        if end == whole.len() {
            assert(whole.skip(end) =~= Seq::<char>::empty());
            assert(long_components(whole) =~= Seq::<Seq<char>>::empty());
            assert(front =~= whole.push('\\'));
        } else {
            assert(end < n) by {
                if end >= n {
                    assert(whole[end] == name[end - n]);
                    assert(!separator(name[end - n], windows));
                }
            }
            let rest = before.skip(end + 1);
            assert(whole.skip(end + 1) =~= rest + name);
            assert forall|i: int| 0 <= i < name.len() implies #[trigger] name[i] != '\\' by {
                assert(!separator(name[i], windows));
            }
            lemma_walk_last(Seq::empty(), rest, name);
            let names = long_components(whole);
            assert(names.last() == name);
            assert(backslashed(names) == backslashed(names.drop_last()).push('\\') + name);
        }
    }
    assert(front.subrange(front.len() - 1 - name.len(), front.len() - 1) =~= name);
}

proof fn lemma_long_prefix_stop(s: Seq<char>)
    requires
        s.len() >= 4,
    ensures
        long_prefix_end(s) < s.len() ==> separator(s[long_prefix_end(s)], true),
{
    lemma_backslash_from(s, 4);
    if s.len() >= 8 {
        lemma_backslash_from(s, 8);
        if backslash_from(s, 8) < s.len() {
            lemma_backslash_from(s, backslash_from(s, 8) + 1);
        }
    }
}

/// What makes a path absolute: the first separator, or on Windows the one behind the drive. Paths of
/// shares and in long form, which begin with two separators, are another matter.
pub proof fn law_absolute_paths_begin_at_a_root(path: Seq<char>)
    ensures
        absolute(path, false) <==> path.len() > 0 && path[0] == '/',
        !(path.len() >= 2 && separator(path[0], true) && separator(path[1], true)) ==> (absolute(
            path,
            true,
        ) <==> path.len() >= 3 && path[1] == ':' && (('a' <= path[0] && path[0] <= 'z') || ('A'
            <= path[0] && path[0] <= 'Z')) && (path[2] == '/' || path[2] == '\\')),
{
}

/// What lies above a name behind a directory is the directory, and the last part is the name.
pub proof fn law_above_a_name_lies_its_directory(base: Seq<char>, name: Seq<char>)
    requires
        plain_name(name, false),
        base.len() > 0,
        base.last() != '/',
        !(base.len() >= 2 && base.last() == '.' && base[base.len() - 2] == '/'),
    ensures
        parent(base.push('/') + name, false) == Some(base),
        file_name(base.push('/') + name, false) == Some(name),
        joined(base, name, false) == base.push('/') + name,
{
    let s = base.push('/') + name;
    let n = base.len() as int;
    let end = s.len() as int;
    assert(!separator(name[0], false));
    assert(!absolute(name, false));
    assert(!separator(name[name.len() - 1], false));
    assert(s[end - 1] == name[name.len() - 1]);
    assert(s[n] == '/' && s[0] == base[0] && s[n - 1] == base.last());
    assert(n >= 2 ==> s[n - 2] == base[n - 2]);
    if s[end - 1] == '.' && s[end - 2] == '/' {
        if name.len() >= 2 {
            assert(s[end - 2] == name[name.len() - 2]);
            assert(!separator(name[name.len() - 2], false));
        } else {
            assert(name =~= seq!['.']);
        }
    }
    assert(trimmed_len(s, end, false) == end);
    assert forall|i: int| n + 1 <= i < end implies !parts(s, #[trigger] s[i], false) by {
        assert(s[i] == name[i - n - 1]);
        assert(!separator(name[i - n - 1], false));
    }
    lemma_component_runs_back(s, n + 1, end);
    assert(s.subrange(n + 1, end) =~= name);
    assert(trimmed_len(s, n + 1, false) == trimmed_len(s, n, false));
    assert(trimmed_len(s, n, false) == n);
    assert(s.take(n) =~= base);
}

proof fn lemma_component_runs_back(s: Seq<char>, start: int, n: int)
    requires
        1 < start <= n <= s.len(),
        s[start - 1] == '/',
        forall|i: int| start <= i < n ==> !parts(s, #[trigger] s[i], false),
    ensures
        component_start(s, n, false) == start,
    decreases n - start,
{
    if start < n {
        assert(!parts(s, s[n - 1], false));
        lemma_component_runs_back(s, start, n - 1);
    }
}

/// Where the program keeps its data: in the directory that was set, or in the usual one below the home
/// directory.
pub proof fn law_data_lies_where_it_was_set(data: Option<String>, home: Option<String>, name: Seq<char>)
    requires
        plain_name(name, false),
        data matches Some(d) ==> d@.len() > 0 && d@.last() != '/',
        home matches Some(h) ==> h@.len() > 0 && h@.last() != '/',
    ensures
        data matches Some(d) ==> data_place(data, home, name, false) == d@ + "/"@ + name,
        home matches Some(h) ==> data is None ==> data_place(data, home, name, false) == h@
            + "/.local/share/"@ + name,
{
    reveal_strlit("/");
    reveal_strlit(".local");
    reveal_strlit("share");
    reveal_strlit("/.local/share/");
    assert(!separator(name[0], false));
    assert(!absolute(name, false));
    if let Some(d) = data {
        assert(data_place(data, home, name, false) =~= d@ + "/"@ + name);
    } else if let Some(h) = home {
        let first = joined(h@, ".local"@, false);
        assert(first =~= h@.push('/') + ".local"@);
        assert(first.last() == 'l');
        let second = joined(first, "share"@, false);
        assert(second =~= first.push('/') + "share"@);
        assert(second.last() == 'e');
        assert(data_place(data, home, name, false) =~= h@ + "/.local/share/"@ + name);
    }
}

/// On Windows a server and a share on it are the root of a path; a server alone is none.
pub proof fn law_shares_are_roots(server: Seq<char>, share: Seq<char>, rest: Seq<char>)
    requires
        server.len() > 0,
        forall|i: int| 0 <= i < server.len() ==> !separator(#[trigger] server[i], true),
        forall|i: int| 0 <= i < share.len() ==> !separator(#[trigger] share[i], true),
        rest.len() > 0 ==> separator(rest[0], true),
        server != seq!['?'],
    ensures
        ({
            let path = seq!['\\', '\\'] + server + seq!['\\'] + share + rest;
            &&& share.len() > 0 ==> prefix_end(path, true) == server.len() + share.len() + 3
                && absolute(path, true)
            &&& share.len() == 0 ==> prefix_end(path, true) == 0 && !absolute(path, true)
        }),
{
    let path = seq!['\\', '\\'] + server + seq!['\\'] + share + rest;
    let n = server.len() as int;
    assert forall|i: int| 2 <= i < n + 2 implies !separator(#[trigger] path[i], true) by {
        assert(path[i] == server[i - 2]);
    }
    assert(path[n + 2] == '\\');
    lemma_next_separator(path, 2, n + 2);
    let end = n + 3 + share.len();
    assert forall|i: int| n + 3 <= i < end implies !separator(#[trigger] path[i], true) by {
        assert(path[i] == share[i - n - 3]);
    }
    if rest.len() > 0 {
        assert(path[end] == rest[0]);
    }
    lemma_next_separator(path, n + 3, end);
    if long(path, true) {
        if n == 1 {
            assert(path[2] == server[0]);
            assert(server =~= seq!['?']);
        } else {
            assert(path[3] == server[1]);
            assert(!separator(server[1], true));
        }
    }
    assert(!has_drive(path, true));
}

proof fn lemma_next_separator(s: Seq<char>, from: int, at: int)
    requires
        0 <= from <= at <= s.len(),
        forall|i: int| from <= i < at ==> !separator(#[trigger] s[i], true),
        at < s.len() ==> separator(s[at], true),
    ensures
        separator_from(s, from, true) == at,
    decreases at - from,
{
    if from < at {
        assert(!separator(s[from], true));
        lemma_next_separator(s, from + 1, at);
    }
}

} // verus!
