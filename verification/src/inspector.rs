//! The GitHub inspector: the number prompt, and moving through an item's pages, its changed-file
//! tree and its diff.

use crate::input::{
    Event, KeyCode, KeyEvent, KeyEventKind, MouseButton, MouseEvent, MouseEventKind, Rect,
};
use crate::strings::{ascii_digit, chars_of, is_ascii_digit, same_text, text_between};
use vstd::prelude::*;

verus! {

/// What the inspector shows.
#[derive(Debug)]
pub enum GithubInspectorScreen {
    NumberPrompt,
    Loading,
    Error(String),
    Ready { pull_request: bool },
}

/// The pages of an item. Only the page of changed files has a tree and a diff.
#[derive(Clone, Copy, Debug, PartialEq, Eq, Structural)]
pub enum GithubTab {
    Details,
    Files,
}

/// The part of the page of changed files that has the focus.
#[derive(Clone, Copy, Debug, PartialEq, Eq, Structural)]
pub enum FilesPane {
    Tree,
    Diff,
}

/// What a row of the changed-file tree stands for.
#[derive(Debug)]
pub enum RowKind {
    Directory { path: String, expanded: bool },
    File { index: usize },
}

/// A row of the changed-file tree as it is displayed, with the position of its directory's row.
#[derive(Debug)]
pub struct TreeRow {
    pub label: String,
    pub kind: RowKind,
    pub parent: Option<usize>,
}

/// The inspector. The limits and areas are those of the last drawing.
pub struct GithubInspector {
    pub screen: GithubInspectorScreen,
    pub input: String,
    pub prompt_error: Option<String>,
    pub tab: GithubTab,
    pub files_pane: FilesPane,
    pub tree_selected: usize,
    pub tree_offset: usize,
    pub selected_file: usize,
    pub diff_scroll: usize,
    pub diff_horizontal: usize,
    pub max_diff_scroll: usize,
    pub max_diff_horizontal: usize,
    pub scroll: usize,
    pub max_scroll: usize,
    pub visible_tree_rows: usize,
    pub tree_area: Rect,
    pub diff_area: Rect,
    pub collapsed_dirs: Vec<String>,
}

/// What the inspector asks the program to do.
#[derive(Clone, Copy, Debug, PartialEq, Eq, Structural)]
pub enum InspectorAction {
    Nothing,
    Close,
    SubmitNumber,
    Retry,
    CycleTab { forward: bool },
}

/// A position moved by a number of steps, as far as positions go.
pub open spec fn moved(position: usize, amount: int) -> usize {
    if position + amount < 0 {
        0
    } else if position + amount > usize::MAX {
        usize::MAX
    } else {
        (position + amount) as usize
    }
}

/// A position that is no larger than a limit.
pub open spec fn at_most(position: usize, limit: usize) -> usize {
    if position < limit {
        position
    } else {
        limit
    }
}

fn move_by(position: usize, amount: i16) -> (r: usize)
    ensures
        r == moved(position, amount as int),
{
    if amount < 0 {
        let back: usize = (0 - amount as i32) as usize;
        position.saturating_sub(back)
    } else {
        position.saturating_add(amount as usize)
    }
}

fn limit_to(position: usize, limit: usize) -> (r: usize)
    ensures
        r == at_most(position, limit),
{
    if position < limit {
        position
    } else {
        limit
    }
}

/// The directories that are folded.
pub open spec fn folded(dirs: Seq<String>) -> Set<Seq<char>> {
    Set::new(|path: Seq<char>| exists|i: int| 0 <= i < dirs.len() && (#[trigger] dirs[i])@ == path)
}

/// The inspector after a row of the tree was selected, as far as there are rows: the diff follows
/// the selection to another file, and starts at its top.
pub open spec fn selecting(inspector: GithubInspector, rows: Seq<TreeRow>, row: usize) -> GithubInspector {
    if rows.len() == 0 {
        inspector
    } else {
        let at = at_most(row, (rows.len() - 1) as usize);
        let on_row = GithubInspector { tree_selected: at, ..inspector };
        match rows[at as int].kind {
            RowKind::File { index } => if index != inspector.selected_file {
                GithubInspector {
                    selected_file: index,
                    diff_scroll: 0,
                    diff_horizontal: 0,
                    ..on_row
                }
            } else {
                on_row
            },
            RowKind::Directory { .. } => on_row,
        }
    }
}

/// The inspector after its tree view was scrolled without moving the selection.
pub open spec fn tree_scrolled(inspector: GithubInspector, rows: nat, amount: int) -> GithubInspector {
    let page = if inspector.visible_tree_rows == 0 {
        1
    } else {
        inspector.visible_tree_rows as int
    };
    let limit = if rows > page {
        rows - page
    } else {
        0
    };
    GithubInspector {
        tree_offset: at_most(moved(inspector.tree_offset, amount), limit as usize),
        ..inspector
    }
}

/// The inspector after its diff was scrolled.
pub open spec fn diff_scrolled(inspector: GithubInspector, amount: int) -> GithubInspector {
    GithubInspector {
        diff_scroll: at_most(moved(inspector.diff_scroll, amount), inspector.max_diff_scroll),
        ..inspector
    }
}

/// The inspector after its diff was scrolled sideways.
pub open spec fn diff_shifted(inspector: GithubInspector, amount: int) -> GithubInspector {
    GithubInspector {
        diff_horizontal: at_most(
            moved(inspector.diff_horizontal, amount),
            inspector.max_diff_horizontal,
        ),
        ..inspector
    }
}

/// The inspector after scrolling what has the focus: the diff, the selection in the tree, or the page.
pub open spec fn scrolled(inspector: GithubInspector, rows: Seq<TreeRow>, amount: int) -> GithubInspector {
    if inspector.shows_files() {
        if inspector.files_pane == FilesPane::Diff {
            diff_scrolled(inspector, amount)
        } else {
            selecting(inspector, rows, moved(inspector.tree_selected, amount))
        }
    } else {
        GithubInspector {
            scroll: at_most(moved(inspector.scroll, amount), inspector.max_scroll),
            ..inspector
        }
    }
}

/// The inspector after jumping to the start or the end of what has the focus.
pub open spec fn at_boundary(inspector: GithubInspector, rows: Seq<TreeRow>, end: bool) -> GithubInspector {
    if inspector.shows_files() {
        if inspector.files_pane == FilesPane::Diff {
            GithubInspector {
                diff_scroll: if end {
                    inspector.max_diff_scroll
                } else {
                    0
                },
                ..inspector
            }
        } else if rows.len() == 0 {
            inspector
        } else {
            selecting(
                inspector,
                rows,
                if end {
                    (rows.len() - 1) as usize
                } else {
                    0
                },
            )
        }
    } else {
        GithubInspector {
            scroll: if end {
                inspector.max_scroll
            } else {
                0
            },
            ..inspector
        }
    }
}

/// The digits of a text.
pub open spec fn digits_of(text: Seq<char>) -> Seq<char> {
    text.filter(|c: char| ascii_digit(c))
}

impl GithubInspector {
    /// Whether the page of changed files of a pull request is shown.
    pub open spec fn shows_files(&self) -> bool {
        self.tab == GithubTab::Files && (self.screen matches GithubInspectorScreen::Ready {
            pull_request,
        } && pull_request)
    }

    /// The inspector that asks for the number of an item.
    pub fn number_prompt() -> (inspector: Self)
        ensures
            inspector.screen is NumberPrompt,
            inspector.input@.len() == 0,
            inspector.prompt_error is None,
            inspector.tab == GithubTab::Details,
            inspector.files_pane == FilesPane::Tree,
            inspector.tree_selected == 0,
            inspector.tree_offset == 0,
            inspector.selected_file == 0,
            inspector.diff_scroll == 0,
            inspector.diff_horizontal == 0,
            inspector.scroll == 0,
            inspector.collapsed_dirs@.len() == 0,
    {
        GithubInspector {
            screen: GithubInspectorScreen::NumberPrompt,
            input: String::new(),
            prompt_error: None,
            tab: GithubTab::Details,
            files_pane: FilesPane::Tree,
            tree_selected: 0,
            tree_offset: 0,
            selected_file: 0,
            diff_scroll: 0,
            diff_horizontal: 0,
            max_diff_scroll: 0,
            max_diff_horizontal: 0,
            scroll: 0,
            max_scroll: 0,
            visible_tree_rows: 0,
            tree_area: Rect { x: 0, y: 0, width: 0, height: 0 },
            diff_area: Rect { x: 0, y: 0, width: 0, height: 0 },
            collapsed_dirs: Vec::new(),
        }
    }

    fn files_shown(&self) -> (r: bool)
        ensures
            r == self.shows_files(),
    {
        let ready = match self.screen {
            GithubInspectorScreen::Ready { pull_request } => pull_request,
            _ => false,
        };
        self.tab == GithubTab::Files && ready
    }

    /// Moves the tree cursor, keeping the diff pane showing the selected file.
    pub fn select_github_tree_row(&mut self, rows: &Vec<TreeRow>, row: usize)
        ensures
            *final(self) == selecting(*old(self), rows@, row),
    {
        if rows.len() == 0 {
            return;
        }
        let at = limit_to(row, rows.len() - 1);
        self.tree_selected = at;
        if let RowKind::File { index } = rows[at].kind {
            if self.selected_file != index {
                self.selected_file = index;
                self.diff_scroll = 0;
                self.diff_horizontal = 0;
            }
        }
    }

    /// Puts the cursor on the first file of the tree, if it has one.
    pub fn select_first_tree_file(&mut self, rows: &Vec<TreeRow>)
        ensures
            match first_file(rows@, 0) {
                Some(i) => *final(self) == selecting(*old(self), rows@, i as usize),
                None => *final(self) == *old(self),
            },
    {
        let mut i: usize = 0;
        while i < rows.len()
            invariant
                i <= rows@.len(),
                first_file(rows@, 0) == first_file(rows@, i as int),
                *self == *old(self),
            decreases rows@.len() - i,
        {
            if let RowKind::File { .. } = rows[i].kind {
                self.select_github_tree_row(rows, i);
                return;
            }
            i = i + 1;
        }
    }

    /// Scrolls the diff.
    pub fn scroll_github_diff(&mut self, amount: i16)
        ensures
            *final(self) == diff_scrolled(*old(self), amount as int),
    {
        self.diff_scroll = limit_to(move_by(self.diff_scroll, amount), self.max_diff_scroll);
    }

    /// Scrolls the diff sideways.
    pub fn scroll_github_diff_horizontal(&mut self, amount: i16)
        ensures
            *final(self) == diff_shifted(*old(self), amount as int),
    {
        self.diff_horizontal = limit_to(
            move_by(self.diff_horizontal, amount),
            self.max_diff_horizontal,
        );
    }

    /// Scrolls the tree under the pointer without dragging the selection along.
    pub fn scroll_github_tree_view(&mut self, rows: &Vec<TreeRow>, amount: i16)
        ensures
            *final(self) == tree_scrolled(*old(self), rows@.len(), amount as int),
    {
        let page: usize = if self.visible_tree_rows == 0 {
            1
        } else {
            self.visible_tree_rows
        };
        let limit: usize = rows.len().saturating_sub(page);
        self.tree_offset = limit_to(move_by(self.tree_offset, amount), limit);
    }

    /// Scrolls what has the focus.
    pub fn scroll_github_inspector(&mut self, rows: &Vec<TreeRow>, amount: i16)
        ensures
            *final(self) == scrolled(*old(self), rows@, amount as int),
    {
        if self.files_shown() {
            if self.files_pane == FilesPane::Diff {
                self.scroll_github_diff(amount);
            } else {
                let next = move_by(self.tree_selected, amount);
                self.select_github_tree_row(rows, next);
            }
            return;
        }
        self.scroll = limit_to(move_by(self.scroll, amount), self.max_scroll);
    }

    /// Jumps to the start or the end of what has the focus.
    pub fn set_github_scroll_boundary(&mut self, rows: &Vec<TreeRow>, end: bool)
        ensures
            *final(self) == at_boundary(*old(self), rows@, end),
    {
        if self.files_shown() {
            if self.files_pane == FilesPane::Diff {
                self.diff_scroll = if end {
                    self.max_diff_scroll
                } else {
                    0
                };
            } else if rows.len() > 0 {
                let row: usize = if end {
                    rows.len() - 1
                } else {
                    0
                };
                self.select_github_tree_row(rows, row);
            }
            return;
        }
        self.scroll = if end {
            self.max_scroll
        } else {
            0
        };
    }

    /// Scrolls whichever pane the pointer is over, so the wheel works without changing focus first.
    pub fn scroll_github_at(&mut self, rows: &Vec<TreeRow>, column: u16, row: u16, amount: i16)
        ensures
            *final(self) == (if old(self).tab == GithubTab::Files && old(self).diff_area.holds(
                column,
                row,
            ) {
                diff_scrolled(*old(self), amount as int)
            } else if old(self).tab == GithubTab::Files && old(self).tree_area.holds(column, row) {
                tree_scrolled(*old(self), rows@.len(), amount as int)
            } else {
                scrolled(*old(self), rows@, amount as int)
            }),
    {
        if self.tab == GithubTab::Files && self.diff_area.contains(column, row) {
            self.scroll_github_diff(amount);
        } else if self.tab == GithubTab::Files && self.tree_area.contains(column, row) {
            self.scroll_github_tree_view(rows, amount);
        } else {
            self.scroll_github_inspector(rows, amount);
        }
    }

    /// Clicking a pane focuses it, and clicking a tree row selects that row.
    pub fn click_github_inspector(&mut self, rows: &Vec<TreeRow>, column: u16, row: u16)
        ensures
            *final(self) == (if old(self).tab != GithubTab::Files {
                *old(self)
            } else if old(self).diff_area.holds(column, row) {
                GithubInspector { files_pane: FilesPane::Diff, ..*old(self) }
            } else if old(self).tree_area.holds(column, row) {
                selecting(
                    GithubInspector { files_pane: FilesPane::Tree, ..*old(self) },
                    rows@,
                    moved(old(self).tree_offset, row - old(self).tree_area.y),
                )
            } else {
                *old(self)
            }),
    {
        if self.tab != GithubTab::Files {
            return;
        }
        if self.diff_area.contains(column, row) {
            self.files_pane = FilesPane::Diff;
            return;
        }
        if !self.tree_area.contains(column, row) {
            return;
        }
        let clicked: usize = self.tree_offset.saturating_add((row - self.tree_area.y) as usize);
        self.files_pane = FilesPane::Tree;
        self.select_github_tree_row(rows, clicked);
    }

    fn fold(&mut self, path: &String)
        ensures
            folded(final(self).collapsed_dirs@) == folded(old(self).collapsed_dirs@).insert(path@),
            *final(self) == (GithubInspector {
                collapsed_dirs: final(self).collapsed_dirs,
                ..*old(self)
            }),
    {
        let ghost before = self.collapsed_dirs@;
        self.collapsed_dirs.push(path.clone());
        proof {
            let after = self.collapsed_dirs@;
            assert forall|p: Seq<char>| folded(after).contains(p) == folded(before).insert(
                path@,
            ).contains(p) by {
                if folded(after).contains(p) {
                    let i = choose|i: int| 0 <= i < after.len() && (#[trigger] after[i])@ == p;
                    if i < before.len() {
                        assert(before[i]@ == p);
                    }
                }
                if folded(before).contains(p) {
                    let i = choose|i: int| 0 <= i < before.len() && (#[trigger] before[i])@ == p;
                    assert(after[i]@ == p);
                }
                assert(after[before.len() as int]@ == path@);
            }
            assert(folded(after) =~= folded(before).insert(path@));
        }
    }

    fn unfold(&mut self, path: &String)
        ensures
            folded(final(self).collapsed_dirs@) == folded(old(self).collapsed_dirs@).remove(path@),
            *final(self) == (GithubInspector {
                collapsed_dirs: final(self).collapsed_dirs,
                ..*old(self)
            }),
    {
        let ghost before = self.collapsed_dirs@;
        let mut kept: Vec<String> = Vec::new();
        let mut i: usize = 0;
        while i < self.collapsed_dirs.len()
            invariant
                i <= self.collapsed_dirs@.len(),
                *self == *old(self),
                before == self.collapsed_dirs@,
                folded(kept@) == folded(before.take(i as int)).remove(path@),
            decreases self.collapsed_dirs@.len() - i,
        {
            let ghost earlier = kept@;
            let ghost shorter = before.take(i as int);
            let ghost longer = before.take(i + 1);
            let dir = &self.collapsed_dirs[i];
            if !same_text(dir.as_str(), path.as_str()) {
                kept.push(dir.clone());
            }
            proof {
                assert forall|p: Seq<char>| folded(kept@).contains(p) == folded(longer).remove(
                    path@,
                ).contains(p) by {
                    if folded(longer).contains(p) {
                        let j = choose|j: int| 0 <= j < longer.len() && (#[trigger] longer[j])@ == p;
                        if j < i {
                            assert(shorter[j]@ == p);
                            assert(folded(shorter).contains(p));
                        }
                    }
                    if folded(shorter).contains(p) {
                        let j = choose|j: int|
                            0 <= j < shorter.len() && (#[trigger] shorter[j])@ == p;
                        assert(longer[j]@ == p);
                    }
                    assert(longer[i as int]@ == dir@);
                    if folded(kept@).contains(p) {
                        let j = choose|j: int| 0 <= j < kept@.len() && (#[trigger] kept@[j])@ == p;
                        if j < earlier.len() {
                            assert(earlier[j]@ == p);
                            assert(folded(earlier).contains(p));
                        }
                    }
                    if folded(earlier).contains(p) {
                        let j = choose|j: int|
                            0 <= j < earlier.len() && (#[trigger] earlier[j])@ == p;
                        assert(kept@[j]@ == p);
                    }
                    if dir@ != path@ {
                        assert(kept@[earlier.len() as int]@ == dir@);
                    }
                }
                assert(folded(kept@) =~= folded(longer).remove(path@));
            }
            i = i + 1;
        }
        assert(before.take(i as int) == before);
        self.collapsed_dirs = kept;
    }

    /// Left in the tree: an open directory folds; anything else steps out to its directory. In the
    /// diff it scrolls.
    pub fn collapse_or_ascend_github_tree(&mut self, rows: &Vec<TreeRow>)
        ensures
            old(self).files_pane == FilesPane::Diff ==> *final(self) == diff_shifted(*old(self), -4),
            old(self).files_pane == FilesPane::Tree && old(self).tree_selected < rows@.len() ==> {
                let row = rows@[old(self).tree_selected as int];
                match (row.kind, row.parent) {
                    (RowKind::Directory { path, expanded: true }, _) => {
                        &&& folded(final(self).collapsed_dirs@) == folded(
                            old(self).collapsed_dirs@,
                        ).insert(path@)
                        &&& *final(self) == (GithubInspector {
                            collapsed_dirs: final(self).collapsed_dirs,
                            ..*old(self)
                        })
                    },
                    (_, Some(parent)) => *final(self) == selecting(*old(self), rows@, parent),
                    (_, None) => *final(self) == *old(self),
                }
            },
            old(self).files_pane == FilesPane::Tree && old(self).tree_selected >= rows@.len()
                ==> *final(self) == *old(self),
    {
        if self.files_pane == FilesPane::Diff {
            self.scroll_github_diff_horizontal(-4);
            return;
        }
        let selected: usize = self.tree_selected;
        if selected >= rows.len() {
            return;
        }
        let row = &rows[selected];
        if let RowKind::Directory { path, expanded } = &row.kind {
            if *expanded {
                self.fold(path);
                return;
            }
        }
        if let Some(parent) = row.parent {
            self.select_github_tree_row(rows, parent);
        }
    }

    /// Right in the tree: a folded directory opens, an open one is entered, and a file moves the
    /// focus to its diff. In the diff it scrolls.
    pub fn expand_or_enter_github_tree(&mut self, rows: &Vec<TreeRow>)
        ensures
            old(self).files_pane == FilesPane::Diff ==> *final(self) == diff_shifted(*old(self), 4),
            old(self).files_pane == FilesPane::Tree && old(self).tree_selected < rows@.len() ==> (
            match rows@[old(self).tree_selected as int].kind {
                RowKind::Directory { expanded: true, .. } => *final(self) == selecting(
                    *old(self),
                    rows@,
                    (old(self).tree_selected + 1) as usize,
                ),
                RowKind::Directory { path, expanded: false } => {
                    &&& folded(final(self).collapsed_dirs@) == folded(
                        old(self).collapsed_dirs@,
                    ).remove(path@)
                    &&& *final(self) == (GithubInspector {
                        collapsed_dirs: final(self).collapsed_dirs,
                        ..*old(self)
                    })
                },
                RowKind::File { .. } => *final(self) == (GithubInspector {
                    files_pane: FilesPane::Diff,
                    ..*old(self)
                }),
            }),
            old(self).files_pane == FilesPane::Tree && old(self).tree_selected >= rows@.len()
                ==> *final(self) == *old(self),
    {
        if self.files_pane == FilesPane::Diff {
            self.scroll_github_diff_horizontal(4);
            return;
        }
        let selected: usize = self.tree_selected;
        if selected >= rows.len() {
            return;
        }
        match &rows[selected].kind {
            RowKind::Directory { path, expanded } => {
                if *expanded {
                    self.select_github_tree_row(rows, selected + 1);
                } else {
                    self.unfold(path);
                }
            },
            RowKind::File { .. } => {
                self.files_pane = FilesPane::Diff;
            },
        }
    }

    /// Enter folds or opens a directory, or moves the focus into the diff.
    pub fn activate_github_tree_row(&mut self, rows: &Vec<TreeRow>)
        ensures
            old(self).files_pane == FilesPane::Diff || old(self).tree_selected >= rows@.len()
                ==> *final(self) == *old(self),
            old(self).files_pane == FilesPane::Tree && old(self).tree_selected < rows@.len() ==> (
            match rows@[old(self).tree_selected as int].kind {
                RowKind::Directory { path, expanded } => {
                    &&& folded(final(self).collapsed_dirs@) == (if expanded {
                        folded(old(self).collapsed_dirs@).insert(path@)
                    } else {
                        folded(old(self).collapsed_dirs@).remove(path@)
                    })
                    &&& *final(self) == (GithubInspector {
                        collapsed_dirs: final(self).collapsed_dirs,
                        ..*old(self)
                    })
                },
                RowKind::File { .. } => *final(self) == (GithubInspector {
                    files_pane: FilesPane::Diff,
                    ..*old(self)
                }),
            }),
    {
        if self.files_pane == FilesPane::Diff {
            return;
        }
        if self.tree_selected >= rows.len() {
            return;
        }
        match &rows[self.tree_selected].kind {
            RowKind::Directory { path, expanded } => {
                if *expanded {
                    self.fold(path);
                } else {
                    self.unfold(path);
                }
            },
            RowKind::File { .. } => {
                self.files_pane = FilesPane::Diff;
            },
        }
    }

    /// A key over an item that is shown.
    pub fn handle_ready_github_key(&mut self, rows: &Vec<TreeRow>, key: KeyEvent) -> (action:
        InspectorAction)
        ensures
            ready_key_effect(*old(self), rows@, key, *final(self)),
            action == ready_key_action(*old(self), key),
    {
        let files_tab = self.files_shown();
        match key.code {
            KeyCode::Tab => {
                return InspectorAction::CycleTab { forward: !key.modifiers.shift };
            },
            KeyCode::BackTab => {
                return InspectorAction::CycleTab { forward: false };
            },
            // `q` leaves the inspector outright, wherever you are in it; Esc only steps back out of
            // the diff.
            KeyCode::Char('q') => {
                return InspectorAction::Close;
            },
            KeyCode::Esc => {
                if files_tab && self.files_pane == FilesPane::Diff {
                    self.files_pane = FilesPane::Tree;
                } else {
                    return InspectorAction::Close;
                }
            },
            KeyCode::Up => self.scroll_github_inspector(rows, -1),
            KeyCode::Down => self.scroll_github_inspector(rows, 1),
            KeyCode::PageUp => self.scroll_github_inspector(rows, -10),
            KeyCode::PageDown => self.scroll_github_inspector(rows, 10),
            KeyCode::Home => self.set_github_scroll_boundary(rows, false),
            KeyCode::End => self.set_github_scroll_boundary(rows, true),
            KeyCode::Left => {
                if files_tab {
                    self.collapse_or_ascend_github_tree(rows);
                } else {
                    self.scroll_github_diff_horizontal(-4);
                }
            },
            KeyCode::Right => {
                if files_tab {
                    self.expand_or_enter_github_tree(rows);
                } else {
                    self.scroll_github_diff_horizontal(4);
                }
            },
            KeyCode::Enter => {
                if files_tab {
                    self.activate_github_tree_row(rows);
                }
            },
            _ => {},
        }
        InspectorAction::Nothing
    }

    /// A key over the inspector.
    pub fn handle_github_inspector_key(&mut self, rows: &Vec<TreeRow>, key: KeyEvent) -> (action:
        InspectorAction)
        ensures
            action == key_action(*old(self), key),
            key_effect(*old(self), rows@, key, *final(self)),
    {
        let screen = &self.screen;
        match screen {
            GithubInspectorScreen::NumberPrompt => match key.code {
                KeyCode::Esc => InspectorAction::Close,
                KeyCode::Enter => InspectorAction::SubmitNumber,
                KeyCode::Backspace => {
                    let chars = chars_of(self.input.as_str());
                    let count: usize = chars.len();
                    if count > 0 {
                        self.input = text_between(&chars, 0, count - 1);
                        assert(chars@.subrange(0, count - 1) == chars@.drop_last());
                    }
                    self.prompt_error = None;
                    InspectorAction::Nothing
                },
                KeyCode::Char(character) => {
                    if is_ascii_digit(character) && !key.modifiers.control && !key.modifiers.alt {
                        self.input.push(character);
                        self.prompt_error = None;
                    }
                    InspectorAction::Nothing
                },
                _ => InspectorAction::Nothing,
            },
            GithubInspectorScreen::Loading => match key.code {
                KeyCode::Esc | KeyCode::Char('q') => InspectorAction::Close,
                _ => InspectorAction::Nothing,
            },
            GithubInspectorScreen::Error(_) => match key.code {
                KeyCode::Esc | KeyCode::Char('q') => InspectorAction::Close,
                KeyCode::Char('r') => InspectorAction::Retry,
                _ => InspectorAction::Nothing,
            },
            GithubInspectorScreen::Ready { .. } => self.handle_ready_github_key(rows, key),
        }
    }

    /// The number prompt takes the digits of a paste, other screens take none of it.
    pub fn paste_number(&mut self, text: &str)
        ensures
            match old(self).screen {
                GithubInspectorScreen::NumberPrompt => {
                    &&& final(self).input@ == old(self).input@ + digits_of(text@)
                    &&& *final(self) == (GithubInspector {
                        input: final(self).input,
                        prompt_error: None,
                        ..*old(self)
                    })
                },
                _ => *final(self) == *old(self),
            },
    {
        let prompting = match &self.screen {
            GithubInspectorScreen::NumberPrompt => true,
            _ => false,
        };
        if prompting {
            let chars = chars_of(text);
            let ghost digit = |c: char| ascii_digit(c);
            let ghost before = self.input@;
            let mut i: usize = 0;
            proof {
                reveal(Seq::filter);
                assert(before + text@.take(0).filter(digit) =~= before);
            }
            while i < chars.len()
                invariant
                    i <= chars@.len(),
                    chars@ == text@,
                    digit == (|c: char| ascii_digit(c)),
                    self.input@ == before + text@.take(i as int).filter(digit),
                    *self == (GithubInspector { input: self.input, ..*old(self) }),
                decreases chars@.len() - i,
            {
                proof {
                    reveal(Seq::filter);
                    assert(text@.take(i + 1).drop_last() == text@.take(i as int));
                    assert(text@.take(i + 1).last() == chars@[i as int]);
                }
                let ghost so_far = text@.take(i as int).filter(digit);
                if is_ascii_digit(chars[i]) {
                    self.input.push(chars[i]);
                    assert(before + so_far.push(chars@[i as int]) == (before + so_far).push(
                        chars@[i as int],
                    ));
                }
                i = i + 1;
            }
            assert(text@.take(i as int) == text@);
            assert(text@.filter(digit) == digits_of(text@));
            self.prompt_error = None;
        }
    }
}

/// The position of the first file row at or behind `from`.
pub open spec fn first_file(rows: Seq<TreeRow>, from: int) -> Option<int>
    decreases rows.len() - from,
{
    if from >= rows.len() {
        None
    } else if rows[from].kind is File {
        Some(from)
    } else {
        first_file(rows, from + 1)
    }
}

/// Whether a key edits the number prompt.
pub open spec fn edits_prompt(key: KeyEvent) -> bool {
    match key.code {
        KeyCode::Backspace => true,
        KeyCode::Char(c) => ascii_digit(c) && !key.modifiers.control && !key.modifiers.alt,
        _ => false,
    }
}

/// The number prompt after a key: digits are added, and backspace removes the last one.
pub open spec fn prompt_after_key(input: Seq<char>, key: KeyEvent) -> Seq<char> {
    match key.code {
        KeyCode::Backspace => if input.len() > 0 {
            input.drop_last()
        } else {
            input
        },
        KeyCode::Char(c) => if edits_prompt(key) {
            input.push(c)
        } else {
            input
        },
        _ => input,
    }
}

/// What a key over an item asks of the program.
pub open spec fn ready_key_action(inspector: GithubInspector, key: KeyEvent) -> InspectorAction {
    match key.code {
        KeyCode::Tab => InspectorAction::CycleTab { forward: !key.modifiers.shift },
        KeyCode::BackTab => InspectorAction::CycleTab { forward: false },
        KeyCode::Char(c) => if c == 'q' {
            InspectorAction::Close
        } else {
            InspectorAction::Nothing
        },
        KeyCode::Esc => if inspector.shows_files() && inspector.files_pane == FilesPane::Diff {
            InspectorAction::Nothing
        } else {
            InspectorAction::Close
        },
        _ => InspectorAction::Nothing,
    }
}

/// What a key over the inspector asks of the program.
pub open spec fn key_action(inspector: GithubInspector, key: KeyEvent) -> InspectorAction {
    match inspector.screen {
        GithubInspectorScreen::NumberPrompt => match key.code {
            KeyCode::Esc => InspectorAction::Close,
            KeyCode::Enter => InspectorAction::SubmitNumber,
            _ => InspectorAction::Nothing,
        },
        GithubInspectorScreen::Loading => if key.code == KeyCode::Esc || key.code == KeyCode::Char(
            'q',
        ) {
            InspectorAction::Close
        } else {
            InspectorAction::Nothing
        },
        GithubInspectorScreen::Error(_) => if key.code == KeyCode::Esc || key.code == KeyCode::Char(
            'q',
        ) {
            InspectorAction::Close
        } else if key.code == KeyCode::Char('r') {
            InspectorAction::Retry
        } else {
            InspectorAction::Nothing
        },
        GithubInspectorScreen::Ready { .. } => ready_key_action(inspector, key),
    }
}

/// Whether folding a directory, or opening it, leads from one inspector to another.
pub open spec fn row_folded(
    before: GithubInspector,
    path: Seq<char>,
    fold: bool,
    after: GithubInspector,
) -> bool {
    &&& folded(after.collapsed_dirs@) == (if fold {
        folded(before.collapsed_dirs@).insert(path)
    } else {
        folded(before.collapsed_dirs@).remove(path)
    })
    &&& after == (GithubInspector { collapsed_dirs: after.collapsed_dirs, ..before })
}

/// What Left does in the tree.
pub open spec fn left_in_tree(
    before: GithubInspector,
    rows: Seq<TreeRow>,
    after: GithubInspector,
) -> bool {
    if before.tree_selected >= rows.len() {
        after == before
    } else {
        let row = rows[before.tree_selected as int];
        match (row.kind, row.parent) {
            (RowKind::Directory { path, expanded: true }, _) => row_folded(
                before,
                path@,
                true,
                after,
            ),
            (_, Some(parent)) => after == selecting(before, rows, parent),
            (_, None) => after == before,
        }
    }
}

/// What Right does in the tree.
pub open spec fn right_in_tree(
    before: GithubInspector,
    rows: Seq<TreeRow>,
    after: GithubInspector,
) -> bool {
    if before.tree_selected >= rows.len() {
        after == before
    } else {
        match rows[before.tree_selected as int].kind {
            RowKind::Directory { expanded: true, .. } => after == selecting(
                before,
                rows,
                (before.tree_selected + 1) as usize,
            ),
            RowKind::Directory { path, expanded: false } => row_folded(before, path@, false, after),
            RowKind::File { .. } => after == (GithubInspector {
                files_pane: FilesPane::Diff,
                ..before
            }),
        }
    }
}

/// What Enter does in the tree.
pub open spec fn enter_in_tree(
    before: GithubInspector,
    rows: Seq<TreeRow>,
    after: GithubInspector,
) -> bool {
    if before.tree_selected >= rows.len() {
        after == before
    } else {
        match rows[before.tree_selected as int].kind {
            RowKind::Directory { path, expanded } => row_folded(before, path@, expanded, after),
            RowKind::File { .. } => after == (GithubInspector {
                files_pane: FilesPane::Diff,
                ..before
            }),
        }
    }
}

/// What a key over an item does to the inspector.
pub open spec fn ready_key_effect(
    before: GithubInspector,
    rows: Seq<TreeRow>,
    key: KeyEvent,
    after: GithubInspector,
) -> bool {
    let files = before.shows_files();
    let in_diff = before.files_pane == FilesPane::Diff;
    match key.code {
        KeyCode::Esc => after == (if files && in_diff {
            GithubInspector { files_pane: FilesPane::Tree, ..before }
        } else {
            before
        }),
        KeyCode::Up => after == scrolled(before, rows, -1),
        KeyCode::Down => after == scrolled(before, rows, 1),
        KeyCode::PageUp => after == scrolled(before, rows, -10),
        KeyCode::PageDown => after == scrolled(before, rows, 10),
        KeyCode::Home => after == at_boundary(before, rows, false),
        KeyCode::End => after == at_boundary(before, rows, true),
        KeyCode::Left => if files && !in_diff {
            left_in_tree(before, rows, after)
        } else {
            after == diff_shifted(before, -4)
        },
        KeyCode::Right => if files && !in_diff {
            right_in_tree(before, rows, after)
        } else {
            after == diff_shifted(before, 4)
        },
        KeyCode::Enter => if files && !in_diff {
            enter_in_tree(before, rows, after)
        } else {
            after == before
        },
        _ => after == before,
    }
}

/// What an event over the inspector asks of the program.
pub open spec fn event_action(inspector: GithubInspector, event: Event) -> InspectorAction {
    match event {
        Event::Key(key) => if key.kind == KeyEventKind::Press {
            key_action(inspector, key)
        } else {
            InspectorAction::Nothing
        },
        _ => InspectorAction::Nothing,
    }
}

/// What a pressed key does to the inspector.
pub open spec fn key_effect(
    before: GithubInspector,
    rows: Seq<TreeRow>,
    key: KeyEvent,
    after: GithubInspector,
) -> bool {
    match before.screen {
        GithubInspectorScreen::NumberPrompt => {
            &&& after.input@ == prompt_after_key(before.input@, key)
            &&& after == (GithubInspector {
                input: after.input,
                prompt_error: if edits_prompt(key) {
                    None
                } else {
                    before.prompt_error
                },
                ..before
            })
        },
        GithubInspectorScreen::Ready { .. } => ready_key_effect(before, rows, key, after),
        _ => after == before,
    }
}

/// What an event does to the inspector.
pub open spec fn event_effect(
    before: GithubInspector,
    rows: Seq<TreeRow>,
    event: Event,
    after: GithubInspector,
) -> bool {
    match event {
        Event::Paste(text) => if before.screen is NumberPrompt {
            &&& after.input@ == before.input@ + digits_of(text@)
            &&& after == (GithubInspector { input: after.input, prompt_error: None, ..before })
        } else {
            after == before
        },
        Event::Mouse(mouse) => after == inspector_after_mouse(before, rows, mouse),
        Event::Key(key) => if key.kind == KeyEventKind::Press {
            key_effect(before, rows, key, after)
        } else {
            after == before
        },
        _ => after == before,
    }
}

/// An event over the inspector: pastes go to the number prompt, the wheel and clicks to what is under
/// the pointer, and pressed keys to the screen that is shown.
pub fn handle_github_inspector_event(
    inspector: &mut GithubInspector,
    rows: &Vec<TreeRow>,
    event: &Event,
) -> (action: InspectorAction)
    ensures
        action == event_action(*old(inspector), *event),
        event_effect(*old(inspector), rows@, *event, *final(inspector)),
{
    match event {
        Event::Paste(text) => {
            inspector.paste_number(text.as_str());
            InspectorAction::Nothing
        },
        Event::Mouse(mouse) => {
            match mouse.kind {
                MouseEventKind::ScrollUp => {
                    inspector.scroll_github_at(rows, mouse.column, mouse.row, -3)
                },
                MouseEventKind::ScrollDown => {
                    inspector.scroll_github_at(rows, mouse.column, mouse.row, 3)
                },
                MouseEventKind::Down(MouseButton::Left) => {
                    inspector.click_github_inspector(rows, mouse.column, mouse.row)
                },
                _ => {},
            }
            InspectorAction::Nothing
        },
        Event::Key(key) => {
            if key.kind == KeyEventKind::Press {
                inspector.handle_github_inspector_key(rows, *key)
            } else {
                InspectorAction::Nothing
            }
        },
        _ => InspectorAction::Nothing,
    }
}

/// The inspector after a mouse event.
pub open spec fn inspector_after_mouse(
    before: GithubInspector,
    rows: Seq<TreeRow>,
    mouse: MouseEvent,
) -> GithubInspector {
    let files = before.tab == GithubTab::Files;
    let over_diff = files && before.diff_area.holds(mouse.column, mouse.row);
    let over_tree = files && before.tree_area.holds(mouse.column, mouse.row);
    match mouse.kind {
        MouseEventKind::ScrollUp => if over_diff {
            diff_scrolled(before, -3)
        } else if over_tree {
            tree_scrolled(before, rows.len(), -3)
        } else {
            scrolled(before, rows, -3)
        },
        MouseEventKind::ScrollDown => if over_diff {
            diff_scrolled(before, 3)
        } else if over_tree {
            tree_scrolled(before, rows.len(), 3)
        } else {
            scrolled(before, rows, 3)
        },
        MouseEventKind::Down(MouseButton::Left) => if over_diff {
            GithubInspector { files_pane: FilesPane::Diff, ..before }
        } else if over_tree {
            selecting(
                GithubInspector { files_pane: FilesPane::Tree, ..before },
                rows,
                moved(before.tree_offset, mouse.row - before.tree_area.y),
            )
        } else {
            before
        },
        _ => before,
    }
}

/// However the inspector is scrolled, no position passes its limit, and the tree cursor stays on a
/// row.
pub proof fn law_scrolling_stays_within_limits(
    inspector: GithubInspector,
    rows: Seq<TreeRow>,
    amount: int,
)
    requires
        inspector.tree_selected < rows.len() <= usize::MAX,
        inspector.scroll <= inspector.max_scroll,
        inspector.diff_scroll <= inspector.max_diff_scroll,
    ensures
        ({
            let after = scrolled(inspector, rows, amount);
            &&& after.tree_selected < rows.len()
            &&& after.scroll <= after.max_scroll
            &&& after.diff_scroll <= after.max_diff_scroll
        }),
{
}

/// Scrolling goes as far as was asked, down for more and up for less, and stops at the ends.
pub proof fn law_scrolling_goes_as_far_as_asked(inspector: GithubInspector, amount: int)
    ensures
        ({
            let wanted = inspector.diff_scroll + amount;
            let now = diff_scrolled(inspector, amount).diff_scroll;
            let aside = inspector.diff_horizontal + amount;
            let shifted = diff_shifted(inspector, amount).diff_horizontal;
            &&& 0 <= wanted <= inspector.max_diff_scroll ==> now == wanted
            &&& wanted < 0 ==> now == 0
            &&& wanted > inspector.max_diff_scroll ==> now == inspector.max_diff_scroll
            &&& 0 <= aside <= inspector.max_diff_horizontal ==> shifted == aside
            &&& aside < 0 ==> shifted == 0
            &&& aside > inspector.max_diff_horizontal ==> shifted == inspector.max_diff_horizontal
        }),
{
}

/// What the keys do to the text of an item: the arrows go one line, the page keys ten, and the ends are
/// the first line and the last.
pub proof fn law_keys_scroll_the_details(
    before: GithubInspector,
    rows: Seq<TreeRow>,
    key: KeyEvent,
    after: GithubInspector,
)
    requires
        ready_key_effect(before, rows, key, after),
        !before.shows_files(),
        10 <= before.scroll,
        before.scroll + 10 <= before.max_scroll,
    ensures
        key.code == KeyCode::Down ==> after.scroll == before.scroll + 1,
        key.code == KeyCode::Up ==> after.scroll == before.scroll - 1,
        key.code == KeyCode::PageDown ==> after.scroll == before.scroll + 10,
        key.code == KeyCode::PageUp ==> after.scroll == before.scroll - 10,
        key.code == KeyCode::Home ==> after.scroll == 0,
        key.code == KeyCode::End ==> after.scroll == before.max_scroll,
        after.selected_file == before.selected_file && after.tree_selected == before.tree_selected,
{
}

/// What the keys do to the changes of a file: up and down go by lines, left and right by four columns,
/// and escape goes back to the files.
pub proof fn law_keys_scroll_the_changes(
    before: GithubInspector,
    rows: Seq<TreeRow>,
    key: KeyEvent,
    after: GithubInspector,
)
    requires
        ready_key_effect(before, rows, key, after),
        before.shows_files(),
        before.files_pane == FilesPane::Diff,
        10 <= before.diff_scroll,
        before.diff_scroll + 10 <= before.max_diff_scroll,
        4 <= before.diff_horizontal,
        before.diff_horizontal + 4 <= before.max_diff_horizontal,
    ensures
        key.code == KeyCode::Down ==> after.diff_scroll == before.diff_scroll + 1,
        key.code == KeyCode::Up ==> after.diff_scroll == before.diff_scroll - 1,
        key.code == KeyCode::PageDown ==> after.diff_scroll == before.diff_scroll + 10,
        key.code == KeyCode::PageUp ==> after.diff_scroll == before.diff_scroll - 10,
        key.code == KeyCode::Home ==> after.diff_scroll == 0,
        key.code == KeyCode::End ==> after.diff_scroll == before.max_diff_scroll,
        key.code == KeyCode::Right ==> after.diff_horizontal == before.diff_horizontal + 4,
        key.code == KeyCode::Left ==> after.diff_horizontal == before.diff_horizontal - 4,
        key.code == KeyCode::Esc <==> after.files_pane == FilesPane::Tree,
        after.tree_selected == before.tree_selected && after.selected_file == before.selected_file,
{
}

/// What the keys do among the files: up and down go to the next row, and what a row names is shown from
/// its beginning; enter opens a file and folds or unfolds a directory; right goes in and left goes out.
pub proof fn law_keys_move_among_the_files(
    before: GithubInspector,
    rows: Seq<TreeRow>,
    key: KeyEvent,
    after: GithubInspector,
)
    requires
        ready_key_effect(before, rows, key, after),
        before.shows_files(),
        before.files_pane == FilesPane::Tree,
        0 < before.tree_selected,
        before.tree_selected + 1 < rows.len(),
        rows.len() <= usize::MAX,
    ensures
        ({
            let here = rows[before.tree_selected as int];
            &&& key.code == KeyCode::Down ==> after.tree_selected == before.tree_selected + 1
            &&& key.code == KeyCode::Up ==> after.tree_selected == before.tree_selected - 1
            &&& key.code == KeyCode::Home ==> after.tree_selected == 0
            &&& key.code == KeyCode::End ==> after.tree_selected == rows.len() - 1
            &&& after.tree_selected != before.tree_selected ==> (
            rows[after.tree_selected as int].kind matches RowKind::File { index } ==> after.selected_file
                == index)
            &&& after.selected_file != before.selected_file ==> after.diff_scroll == 0
                && after.diff_horizontal == 0
            &&& (here.kind is File && (key.code == KeyCode::Enter || key.code == KeyCode::Right)) <==> (
            after.files_pane == FilesPane::Diff)
            &&& key.code == KeyCode::Enter ==> (here.kind matches RowKind::Directory { path, expanded }
                ==> (folded(after.collapsed_dirs@).contains(path@) <==> expanded))
            &&& key.code == KeyCode::Left ==> (here.kind matches RowKind::Directory { path, expanded }
                ==> expanded ==> folded(after.collapsed_dirs@).contains(path@))
            &&& key.code == KeyCode::Right ==> (here.kind matches RowKind::Directory { path, expanded }
                ==> !expanded ==> !folded(after.collapsed_dirs@).contains(path@))
            &&& key.code == KeyCode::Left && here.kind is File ==> (here.parent matches Some(up) ==> up
                < rows.len() ==> after.tree_selected == up)
        }),
{
}

/// Only digits come into the number that is asked for, behind those that are there; the key for going
/// back takes the last one out, enter asks for the item, and escape closes.
pub proof fn law_keys_in_the_number_prompt(
    before: GithubInspector,
    rows: Seq<TreeRow>,
    key: KeyEvent,
    after: GithubInspector,
)
    requires
        key_effect(before, rows, key, after),
        before.screen is NumberPrompt,
        !key.modifiers.control,
        !key.modifiers.alt,
    ensures
        key.code matches KeyCode::Char(c) ==> after.input@ == (if '0' <= c && c <= '9' {
            before.input@.push(c)
        } else {
            before.input@
        }),
        key.code == KeyCode::Backspace && before.input@.len() > 0 ==> after.input@
            == before.input@.drop_last(),
        !(key.code is Char) && key.code != KeyCode::Backspace ==> after.input@ == before.input@,
        key_action(before, key) == InspectorAction::SubmitNumber <==> key.code == KeyCode::Enter,
        key_action(before, key) == InspectorAction::Close <==> key.code == KeyCode::Esc,
{
}

/// The tab key goes on to the next page and with shift back; a failed request is made again with `r`;
/// and every screen can be closed.
pub proof fn law_keys_over_the_pages(inspector: GithubInspector, key: KeyEvent)
    ensures
        inspector.screen is Ready ==> {
            &&& key_action(inspector, key) == (InspectorAction::CycleTab { forward: true }) <==> key.code
                == KeyCode::Tab && !key.modifiers.shift
            &&& key_action(inspector, key) == (InspectorAction::CycleTab { forward: false }) <==> (
            key.code == KeyCode::Tab && key.modifiers.shift) || key.code == KeyCode::BackTab
        },
        key_action(inspector, key) == InspectorAction::Retry <==> inspector.screen is Error && key.code
            == KeyCode::Char('r'),
        !(inspector.screen is NumberPrompt) && key.code == KeyCode::Char('q') ==> key_action(
            inspector,
            key,
        ) == InspectorAction::Close,
{
}

/// What the mouse does: the wheel goes three lines in what lies under it, and a click in the files takes
/// the row that was clicked.
pub proof fn law_the_mouse_in_the_inspector(
    before: GithubInspector,
    rows: Seq<TreeRow>,
    mouse: MouseEvent,
)
    requires
        before.tab == GithubTab::Files,
        rows.len() <= usize::MAX,
    ensures
        ({
            let after = inspector_after_mouse(before, rows, mouse);
            let over_diff = before.diff_area.holds(mouse.column, mouse.row);
            let over_tree = !over_diff && before.tree_area.holds(mouse.column, mouse.row);
            let clicked = before.tree_offset + (mouse.row - before.tree_area.y);
            &&& over_diff && mouse.kind is ScrollDown && before.diff_scroll + 3 <= before.max_diff_scroll
                ==> after.diff_scroll == before.diff_scroll + 3
            &&& over_diff && mouse.kind is ScrollUp && 3 <= before.diff_scroll <= before.max_diff_scroll
                ==> after.diff_scroll == before.diff_scroll - 3
            &&& over_tree && mouse.kind is ScrollUp && before.tree_offset >= 3 && before.tree_offset
                <= rows.len() - before.visible_tree_rows - 1 ==> after.tree_offset == before.tree_offset
                - 3
            &&& over_tree && mouse.kind is ScrollDown && before.tree_offset + 3 <= rows.len()
                - before.visible_tree_rows - 1 ==> after.tree_offset == before.tree_offset + 3
            &&& over_diff && mouse.kind == MouseEventKind::Down(MouseButton::Left) ==> after.files_pane
                == FilesPane::Diff
            &&& over_tree && mouse.kind == MouseEventKind::Down(MouseButton::Left) ==> after.files_pane
                == FilesPane::Tree && (clicked < rows.len() ==> after.tree_selected == clicked)
        }),
{
}

} // verus!
