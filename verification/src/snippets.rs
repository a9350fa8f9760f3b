//! Prompt snippets: the list, its editor, and the changes it asks to be stored.

use crate::editor::TextEditor;
use crate::strings::{control, digit, is_control, text_of, trim, trim_range, text_between};
use vstd::prelude::*;

verus! {

/// A stored prompt.
#[derive(Debug, PartialEq, Eq)]
pub struct PromptSnippet {
    pub name: String,
    pub prompt: String,
}

impl View for PromptSnippet {
    type V = (Seq<char>, Seq<char>);

    open spec fn view(&self) -> (Seq<char>, Seq<char>) {
        (self.name@, self.prompt@)
    }
}

impl Clone for PromptSnippet {
    fn clone(&self) -> (copy: Self)
        ensures
            copy == *self,
    {
        PromptSnippet { name: self.name.clone(), prompt: self.prompt.clone() }
    }
}

/// The names and prompts of a list of snippets.
pub open spec fn snippet_views(list: Seq<PromptSnippet>) -> Seq<(Seq<char>, Seq<char>)> {
    list.map_values(|s: PromptSnippet| s@)
}

/// A copy of a list of snippets.
pub fn copy_snippets(list: &Vec<PromptSnippet>) -> (copy: Vec<PromptSnippet>)
    ensures
        copy@ == list@,
{
    let mut copy: Vec<PromptSnippet> = Vec::new();
    let mut i: usize = 0;
    while i < list.len()
        invariant
            i <= list@.len(),
            copy@ == list@.take(i as int),
        decreases list@.len() - i,
    {
        copy.push(list[i].clone());
        assert(list@.take(i + 1) == list@.take(i as int).push(list@[i as int]));
        i = i + 1;
    }
    assert(list@.take(i as int) == list@);
    copy
}

/// Where a snippet is stored: for every project, or for one.
#[derive(Clone, Copy, Debug, PartialEq, Eq, Structural)]
pub enum SnippetScope {
    Global,
    Project,
}

impl SnippetScope {
    /// The name of the scope in the list.
    pub fn label(self) -> (label: &'static str)
        ensures
            label@ == (match self {
                SnippetScope::Global => "global"@,
                SnippetScope::Project => "project"@,
            }),
    {
        match self {
            SnippetScope::Global => "global",
            SnippetScope::Project => "project",
        }
    }
}

/// What the snippet dialog shows.
#[derive(Clone, Copy, Debug, PartialEq, Eq, Structural)]
pub enum SnippetScreen {
    List,
    Editor,
    ConfirmDelete,
}

/// A field of the snippet editor.
#[derive(Clone, Copy, Debug, PartialEq, Eq, Structural)]
pub enum SnippetEditorField {
    Name,
    Prompt,
    Scope,
}

impl SnippetEditorField {
    /// The neighbouring field: the form shows name, scope and prompt in this order, round the ends.
    pub open spec fn neighbour(self, forward: bool) -> SnippetEditorField {
        match (self, forward) {
            (SnippetEditorField::Name, true) => SnippetEditorField::Scope,
            (SnippetEditorField::Scope, true) => SnippetEditorField::Prompt,
            (SnippetEditorField::Prompt, true) => SnippetEditorField::Name,
            (SnippetEditorField::Name, false) => SnippetEditorField::Prompt,
            (SnippetEditorField::Prompt, false) => SnippetEditorField::Scope,
            (SnippetEditorField::Scope, false) => SnippetEditorField::Name,
        }
    }

    /// The neighbouring field.
    pub fn next(self, forward: bool) -> (field: SnippetEditorField)
        ensures
            field == self.neighbour(forward),
    {
        match (self, forward) {
            (SnippetEditorField::Name, true) | (SnippetEditorField::Prompt, false) => {
                SnippetEditorField::Scope
            },
            (SnippetEditorField::Scope, true) | (SnippetEditorField::Name, false) => {
                SnippetEditorField::Prompt
            },
            (SnippetEditorField::Prompt, true) | (SnippetEditorField::Scope, false) => {
                SnippetEditorField::Name
            },
        }
    }
}

/// The snippet dialog.
pub struct SnippetModal {
    pub screen: SnippetScreen,
    pub selected: usize,
    pub global: Vec<PromptSnippet>,
    pub project: Vec<PromptSnippet>,
    pub original_global: Vec<PromptSnippet>,
    pub original_project: Vec<PromptSnippet>,
    pub project_root: Option<String>,
    pub editor_name: TextEditor,
    pub editor_prompt: TextEditor,
    pub editor_scope: SnippetScope,
    pub editor_field: SnippetEditorField,
    pub editing: Option<(SnippetScope, usize)>,
    pub error: Option<String>,
}

/// A change of the stored snippets: the new lists, what they replace, and which of them changed.
pub struct SnippetUpdate {
    pub global: Vec<PromptSnippet>,
    pub project: Vec<PromptSnippet>,
    pub original_global: Vec<PromptSnippet>,
    pub original_project: Vec<PromptSnippet>,
    pub project_root: Option<String>,
    pub global_dirty: bool,
    pub project_dirty: bool,
}

/// Why the editor's snippet cannot be saved.
#[derive(Clone, Copy, Debug, PartialEq, Eq, Structural)]
pub enum SnippetProblem {
    Incomplete,
    ControlCharacters,
    NoProject,
}

impl SnippetProblem {
    /// The message for the user.
    pub open spec fn text(self) -> Seq<char> {
        match self {
            SnippetProblem::Incomplete => "Name and prompt are both required"@,
            SnippetProblem::ControlCharacters =>
                "Snippets cannot contain terminal control characters"@,
            SnippetProblem::NoProject => "No Git project detected for project scope"@,
        }
    }

    /// The message for the user.
    pub fn message(self) -> (message: String)
        ensures
            message@ == self.text(),
    {
        match self {
            SnippetProblem::Incomplete => "Name and prompt are both required".to_owned(),
            SnippetProblem::ControlCharacters => {
                "Snippets cannot contain terminal control characters".to_owned()
            },
            SnippetProblem::NoProject => "No Git project detected for project scope".to_owned(),
        }
    }
}

/// A text with every line break written as one newline: `CR LF` and `CR` alone become `LF`.
pub open spec fn normalized_breaks(text: Seq<char>) -> Seq<char>
    decreases text.len(),
{
    if text.len() == 0 {
        text
    } else if text[0] == '\r' {
        if text.len() > 1 && text[1] == '\n' {
            seq!['\n'] + normalized_breaks(text.skip(2))
        } else {
            seq!['\n'] + normalized_breaks(text.skip(1))
        }
    } else {
        seq![text[0]] + normalized_breaks(text.skip(1))
    }
}

/// Whether a text has a control character.
pub open spec fn has_control(text: Seq<char>) -> bool {
    exists|i: int| 0 <= i < text.len() && control(#[trigger] text[i])
}

/// Whether a prompt has a control character other than a newline or a tab.
pub open spec fn has_prompt_control(text: Seq<char>) -> bool {
    exists|i: int|
        0 <= i < text.len() && control(#[trigger] text[i]) && text[i] != '\n' && text[i] != '\t'
}

/// Why the editor's texts cannot be saved, in the order in which the reasons count.
pub open spec fn save_problem(
    name: Seq<char>,
    prompt: Seq<char>,
    scope: SnippetScope,
    has_project: bool,
) -> Option<SnippetProblem> {
    if trim(name).len() == 0 || trim(normalized_breaks(prompt)).len() == 0 {
        Some(SnippetProblem::Incomplete)
    } else if has_control(trim(name)) || has_prompt_control(normalized_breaks(prompt)) {
        Some(SnippetProblem::ControlCharacters)
    } else if scope == SnippetScope::Project && !has_project {
        Some(SnippetProblem::NoProject)
    } else {
        None
    }
}

/// The two lists and the selected position in their combination.
#[verifier::ext_equal]
pub struct ListsView {
    pub global: Seq<(Seq<char>, Seq<char>)>,
    pub project: Seq<(Seq<char>, Seq<char>)>,
    pub selected: int,
}

/// The lists after saving a snippet in a scope: in its place where it was edited there, else at the
/// end of the scope's list, and gone from the list where it was edited.
pub open spec fn saved_lists(
    global: Seq<(Seq<char>, Seq<char>)>,
    project: Seq<(Seq<char>, Seq<char>)>,
    editing: Option<(SnippetScope, usize)>,
    scope: SnippetScope,
    snippet: (Seq<char>, Seq<char>),
) -> ListsView {
    match (editing, scope) {
        (Some((SnippetScope::Global, i)), SnippetScope::Global) => ListsView {
            global: global.update(i as int, snippet),
            project,
            selected: i as int,
        },
        (Some((SnippetScope::Project, i)), SnippetScope::Project) => ListsView {
            global,
            project: project.update(i as int, snippet),
            selected: global.len() + i,
        },
        (Some((SnippetScope::Global, i)), SnippetScope::Project) => ListsView {
            global: global.remove(i as int),
            project: project.push(snippet),
            selected: global.len() - 1 + project.len(),
        },
        (Some((SnippetScope::Project, i)), SnippetScope::Global) => ListsView {
            global: global.push(snippet),
            project: project.remove(i as int),
            selected: global.len() as int,
        },
        (None, SnippetScope::Global) => ListsView {
            global: global.push(snippet),
            project,
            selected: global.len() as int,
        },
        (None, SnippetScope::Project) => ListsView {
            global,
            project: project.push(snippet),
            selected: global.len() + project.len() as int,
        },
    }
}

/// Whether saving in a scope changes the stored list of another.
pub open spec fn scope_dirty(
    editing: Option<(SnippetScope, usize)>,
    target: SnippetScope,
    scope: SnippetScope,
) -> bool {
    scope == target || (editing matches Some((old_scope, _)) && old_scope == scope)
}

/// The scope and the position in its list of a position in the combined list.
pub open spec fn entry_at(global_len: nat, project_len: nat, index: int) -> Option<(
    SnippetScope,
    int,
)> {
    if 0 <= index < global_len {
        Some((SnippetScope::Global, index))
    } else if global_len <= index < global_len + project_len {
        Some((SnippetScope::Project, index - global_len))
    } else {
        None
    }
}

impl SnippetModal {
    /// The dialog is consistent: the cursors stand in their texts, the name has one line, the number
    /// of snippets can be counted, and a snippet that is being edited exists.
    pub open spec fn wf(&self) -> bool {
        &&& self.editor_name.wf()
        &&& self.editor_prompt.wf()
        &&& self.editor_name.one_line
        &&& !self.editor_prompt.one_line
        &&& self.global@.len() + self.project@.len() < usize::MAX
        &&& self.selected < usize::MAX
        &&& self.screen == SnippetScreen::Editor ==> match self.editing {
            Some((SnippetScope::Global, i)) => i < self.global@.len(),
            Some((SnippetScope::Project, i)) => i < self.project@.len(),
            None => true,
        }
    }

    /// The dialog with its list open.
    pub fn new(
        global: Vec<PromptSnippet>,
        project: Vec<PromptSnippet>,
        project_root: Option<String>,
    ) -> (modal: Self)
        requires
            global@.len() + project@.len() < usize::MAX,
        ensures
            modal.wf(),
            modal.screen == SnippetScreen::List,
            modal.selected == 0,
            modal.global == global,
            modal.project == project,
            modal.original_global@ == global@,
            modal.original_project@ == project@,
            modal.project_root == project_root,
            modal.editor_name.chars@.len() == 0,
            modal.editor_prompt.chars@.len() == 0,
            modal.editor_scope == SnippetScope::Global,
            modal.editor_field == SnippetEditorField::Name,
            modal.editing is None,
            modal.error is None,
    {
        proof {
            reveal_strlit("");
        }
        SnippetModal {
            screen: SnippetScreen::List,
            selected: 0,
            original_global: copy_snippets(&global),
            original_project: copy_snippets(&project),
            global,
            project,
            project_root,
            editor_name: name_editor(""),
            editor_prompt: prompt_editor(""),
            editor_scope: SnippetScope::Global,
            editor_field: SnippetEditorField::Name,
            editing: None,
            error: None,
        }
    }

    /// The number of snippets in both scopes.
    pub fn len(&self) -> (len: usize)
        requires
            self.wf(),
        ensures
            len == self.global@.len() + self.project@.len(),
    {
        self.global.len() + self.project.len()
    }

    /// Whether there is no snippet.
    pub fn is_empty(&self) -> (r: bool)
        requires
            self.wf(),
        ensures
            r == (self.global@.len() + self.project@.len() == 0),
    {
        self.len() == 0
    }

    /// The snippet at a position of the combined list, global ones first.
    pub fn entry(&self, index: usize) -> (entry: Option<(SnippetScope, usize, &PromptSnippet)>)
        ensures
            match entry_at(self.global@.len(), self.project@.len(), index as int) {
                Some((SnippetScope::Global, i)) => entry == Some(
                    (SnippetScope::Global, i as usize, &self.global@[i]),
                ),
                Some((SnippetScope::Project, i)) => entry == Some(
                    (SnippetScope::Project, i as usize, &self.project@[i]),
                ),
                None => entry is None,
            },
    {
        if index < self.global.len() {
            return Some((SnippetScope::Global, index, &self.global[index]));
        }
        let project_index: usize = index - self.global.len();
        if project_index < self.project.len() {
            Some((SnippetScope::Project, project_index, &self.project[project_index]))
        } else {
            None
        }
    }

    /// The selected snippet.
    pub fn selected_entry(&self) -> (entry: Option<(SnippetScope, usize, &PromptSnippet)>)
        ensures
            match entry_at(self.global@.len(), self.project@.len(), self.selected as int) {
                Some((SnippetScope::Global, i)) => entry == Some(
                    (SnippetScope::Global, i as usize, &self.global@[i]),
                ),
                Some((SnippetScope::Project, i)) => entry == Some(
                    (SnippetScope::Project, i as usize, &self.project@[i]),
                ),
                None => entry is None,
            },
    {
        self.entry(self.selected)
    }

    /// Moves the selection up, as far as the list goes.
    pub fn select_previous(&mut self)
        ensures
            old(self).wf() ==> final(self).wf(),
            *final(self) == (SnippetModal {
                selected: if old(self).selected == 0 {
                    0usize
                } else {
                    (old(self).selected - 1) as usize
                },
                ..*old(self)
            }),
    {
        self.selected = self.selected.saturating_sub(1);
    }

    /// Moves the selection down, as far as the list goes.
    pub fn select_next(&mut self)
        requires
            old(self).wf(),
        ensures
            final(self).wf(),
            ({
                let count = old(self).global@.len() + old(self).project@.len();
                *final(self) == (SnippetModal {
                    selected: if count == 0 {
                        0usize
                    } else if old(self).selected + 1 < count {
                        (old(self).selected + 1) as usize
                    } else {
                        (count - 1) as usize
                    },
                    ..*old(self)
                })
            }),
    {
        let last: usize = self.len().saturating_sub(1);
        let next: usize = self.selected + 1;
        self.selected = if next < last {
            next
        } else {
            last
        };
    }

    /// Opens the editor for a new snippet.
    pub fn begin_add(&mut self)
        requires
            old(self).wf(),
        ensures
            final(self).wf(),
            final(self).editor_name.chars@.len() == 0,
            final(self).editor_prompt.chars@.len() == 0,
            *final(self) == (SnippetModal {
                screen: SnippetScreen::Editor,
                editor_name: final(self).editor_name,
                editor_prompt: final(self).editor_prompt,
                editor_scope: SnippetScope::Global,
                editor_field: SnippetEditorField::Name,
                editing: None,
                error: None,
                ..*old(self)
            }),
    {
        proof {
            reveal_strlit("");
        }
        self.screen = SnippetScreen::Editor;
        self.editor_name = name_editor("");
        self.editor_prompt = prompt_editor("");
        self.editor_scope = SnippetScope::Global;
        self.editor_field = SnippetEditorField::Name;
        self.editing = None;
        self.error = None;
    }

    /// The name and prompt at a position of the combined list.
    pub open spec fn snippet_at(&self, index: int) -> (Seq<char>, Seq<char>) {
        match entry_at(self.global@.len(), self.project@.len(), index) {
            Some((SnippetScope::Global, i)) => self.global@[i]@,
            Some((SnippetScope::Project, i)) => self.project@[i]@,
            None => (Seq::empty(), Seq::empty()),
        }
    }

    /// Opens the editor for the selected snippet, in its scope.
    pub fn begin_edit(&mut self)
        requires
            old(self).wf(),
        ensures
            final(self).wf(),
            match entry_at(
                old(self).global@.len(),
                old(self).project@.len(),
                old(self).selected as int,
            ) {
                Some((scope, i)) => {
                    &&& final(self).editor_name.chars@ == old(self).snippet_at(
                        old(self).selected as int,
                    ).0
                    &&& final(self).editor_prompt.chars@ == old(self).snippet_at(
                        old(self).selected as int,
                    ).1
                    &&& *final(self) == (SnippetModal {
                        screen: SnippetScreen::Editor,
                        editor_name: final(self).editor_name,
                        editor_prompt: final(self).editor_prompt,
                        editor_scope: scope,
                        editor_field: SnippetEditorField::Name,
                        editing: Some((scope, i as usize)),
                        error: None,
                        ..*old(self)
                    })
                },
                None => *final(self) == *old(self),
            },
    {
        let (scope, index, name, prompt) = match self.selected_entry() {
            Some((scope, index, snippet)) => (
                scope,
                index,
                snippet.name.clone(),
                snippet.prompt.clone(),
            ),
            None => {
                return;
            },
        };
        self.screen = SnippetScreen::Editor;
        self.editor_name = name_editor(name.as_str());
        self.editor_prompt = prompt_editor(prompt.as_str());
        self.editor_scope = scope;
        self.editor_field = SnippetEditorField::Name;
        self.editing = Some((scope, index));
        self.error = None;
    }

    /// Asks before deleting; an empty list has nothing to delete.
    pub fn begin_delete(&mut self)
        requires
            old(self).wf(),
        ensures
            final(self).wf(),
            *final(self) == (if old(self).global@.len() + old(self).project@.len() == 0 {
                *old(self)
            } else {
                SnippetModal { screen: SnippetScreen::ConfirmDelete, error: None, ..*old(self) }
            }),
    {
        if !self.is_empty() {
            self.screen = SnippetScreen::ConfirmDelete;
            self.error = None;
        }
    }

    /// Returns to the list.
    pub fn cancel_subscreen(&mut self)
        ensures
            old(self).wf() ==> final(self).wf(),
            *final(self) == (SnippetModal {
                screen: SnippetScreen::List,
                error: None,
                ..*old(self)
            }),
    {
        self.screen = SnippetScreen::List;
        self.error = None;
    }

    /// The editor behind the focused field, or `None` while the focus is on the scope toggle, which
    /// is not text.
    pub fn focused_editor(&mut self) -> (editor: Option<&mut TextEditor>)
        ensures
            match old(self).editor_field {
                SnippetEditorField::Name => {
                    &&& editor is Some
                    &&& *editor->0 == old(self).editor_name
                    &&& *final(self) == (SnippetModal {
                        editor_name: *final(editor->0),
                        ..*old(self)
                    })
                },
                SnippetEditorField::Prompt => {
                    &&& editor is Some
                    &&& *editor->0 == old(self).editor_prompt
                    &&& *final(self) == (SnippetModal {
                        editor_prompt: *final(editor->0),
                        ..*old(self)
                    })
                },
                SnippetEditorField::Scope => editor is None && *final(self) == *old(self),
            },
    {
        match self.editor_field {
            SnippetEditorField::Name => Some(&mut self.editor_name),
            SnippetEditorField::Prompt => Some(&mut self.editor_prompt),
            SnippetEditorField::Scope => None,
        }
    }
}

/// The name is one line: Enter belongs to the form, and a pasted newline would produce a snippet the
/// list cannot show.
fn name_editor(content: &str) -> (editor: TextEditor)
    ensures
        editor.wf(),
        editor.one_line,
        editor.chars@ == content@,
        editor.cursor == content@.len(),
{
    let mut editor = TextEditor::new(content).single_line();
    editor.move_cursor_to_end();
    editor
}

fn prompt_editor(content: &str) -> (editor: TextEditor)
    ensures
        editor.wf(),
        !editor.one_line,
        editor.chars@ == content@,
        editor.cursor == content@.len(),
{
    let mut editor = TextEditor::new(content);
    editor.move_cursor_to_end();
    editor
}

/// The digit that labels a position of the list: 1 to 9, then 0.
pub open spec fn quick_label(index: int) -> Option<char> {
    if 0 <= index <= 8 {
        Some(digit((index + 1) as nat))
    } else if index == 9 {
        Some('0')
    } else {
        None
    }
}

/// The position that a pressed digit refers to.
pub open spec fn quick_index(c: char) -> Option<usize> {
    if c == '0' {
        Some(9usize)
    } else if '1' <= c <= '9' {
        Some((c as u32 - 49) as usize)
    } else {
        None
    }
}

/// The digit labelling `index` in the list, or `None` past the tenth snippet.
///
/// Numbering is absolute rather than per-screen so a snippet keeps the same digit once the list
/// scrolls.
pub fn quick_use_label(index: usize) -> (label: Option<char>)
    ensures
        label == quick_label(index as int),
{
    if index <= 8 {
        Some(crate::strings::digit_char(index as u8 + 1))
    } else if index == 9 {
        Some('0')
    } else {
        None
    }
}

/// Inverse of [`quick_use_label`]: the snippet a pressed digit refers to.
pub fn quick_use_index(digit: char) -> (index: Option<usize>)
    ensures
        index == quick_index(digit),
{
    if digit == '0' {
        Some(9)
    } else if '1' <= digit && digit <= '9' {
        Some((digit as u32 - 49) as usize)
    } else {
        None
    }
}

/// Every digit label refers back to its position, and every digit labels the position it refers to.
pub proof fn law_quick_digits_round_trip(index: usize, c: char)
    ensures
        quick_label(index as int) matches Some(label) ==> quick_index(label) == Some(index),
        quick_index(c) matches Some(i) ==> quick_label(i as int) == Some(c),
        quick_label(index as int) is Some <==> index < 10,
{
}

/// Going to the next field and back, or back and forth, stays on the field; three steps in one
/// direction come round.
pub proof fn law_field_order_is_a_cycle(field: SnippetEditorField, forward: bool)
    ensures
        field.neighbour(forward).neighbour(!forward) == field,
        field.neighbour(forward).neighbour(forward).neighbour(forward) == field,
        field.neighbour(forward) != field,
{
}

/// Whether a dialog is another after moving its snippet to the other scope.
pub open spec fn scope_toggled(before: SnippetModal, after: SnippetModal) -> bool {
    match (before.editor_scope, before.project_root) {
        (SnippetScope::Global, None) => {
            &&& after.error is Some
            &&& after.error->0@ == "No Git project detected for this session"@
            &&& after == (SnippetModal { error: after.error, ..before })
        },
        (SnippetScope::Global, Some(_)) => after == (SnippetModal {
            editor_scope: SnippetScope::Project,
            error: None,
            ..before
        }),
        (SnippetScope::Project, _) => after == (SnippetModal {
            editor_scope: SnippetScope::Global,
            error: None,
            ..before
        }),
    }
}

/// Whether a change and a selection are what saving a dialog's snippet asks for.
pub open spec fn save_planned(modal: SnippetModal, update: SnippetUpdate, selected: usize) -> bool {
    let lists = modal.lists_after_save();
    &&& snippet_views(update.global@) == lists.global
    &&& snippet_views(update.project@) == lists.project
    &&& selected == lists.selected
    &&& update.original_global@ == modal.original_global@
    &&& update.original_project@ == modal.original_project@
    &&& update.project_root == modal.project_root
    &&& update.global_dirty == scope_dirty(modal.editing, modal.editor_scope, SnippetScope::Global)
    &&& update.project_dirty == scope_dirty(modal.editing, modal.editor_scope, SnippetScope::Project)
}

/// Whether a change is what deleting a dialog's selected snippet asks for.
pub open spec fn deletion_planned(modal: SnippetModal, update: SnippetUpdate) -> bool {
    match entry_at(modal.global@.len(), modal.project@.len(), modal.selected as int) {
        Some((scope, i)) => {
            &&& update.global@ == (if scope == SnippetScope::Global {
                modal.global@.remove(i)
            } else {
                modal.global@
            })
            &&& update.project@ == (if scope == SnippetScope::Project {
                modal.project@.remove(i)
            } else {
                modal.project@
            })
            &&& update.original_global@ == modal.original_global@
            &&& update.original_project@ == modal.original_project@
            &&& update.project_root == modal.project_root
            &&& update.global_dirty == (scope == SnippetScope::Global)
            &&& update.project_dirty == (scope == SnippetScope::Project)
        },
        None => false,
    }
}

/// The text with every line break written as one newline.
fn normalize_breaks(chars: &Vec<char>) -> (normalized: Vec<char>)
    ensures
        normalized@ == normalized_breaks(chars@),
{
    let mut normalized: Vec<char> = Vec::new();
    let count: usize = chars.len();
    let mut i: usize = 0;
    assert(chars@.skip(0) == chars@);
    while i < count
        invariant
            i <= count,
            count == chars@.len(),
            normalized@ + normalized_breaks(chars@.skip(i as int)) == normalized_breaks(chars@),
        decreases count - i,
    {
        let c = chars[i];
        let ghost rest = chars@.skip(i as int);
        let ghost before = normalized@;
        proof {
            assert(rest[0] == c);
            assert(rest.skip(1) == chars@.skip(i + 1));
        }
        if c == '\r' {
            normalized.push('\n');
            if i + 1 < count && chars[i + 1] == '\n' {
                proof {
                    assert(rest[1] == '\n');
                    assert(rest.skip(2) == chars@.skip(i + 2));
                    assert(normalized@ + normalized_breaks(chars@.skip(i + 2)) == before
                        + normalized_breaks(rest));
                }
                i = i + 2;
            } else {
                proof {
                    assert(i + 1 < count ==> rest[1] == chars@[i + 1]);
                    assert(normalized@ + normalized_breaks(chars@.skip(i + 1)) == before
                        + normalized_breaks(rest));
                }
                i = i + 1;
            }
        } else {
            normalized.push(c);
            assert(normalized@ + normalized_breaks(chars@.skip(i + 1)) == before
                + normalized_breaks(rest));
            i = i + 1;
        }
    }
    proof {
        assert(chars@.skip(i as int) == Seq::<char>::empty());
        assert(normalized@ + Seq::<char>::empty() == normalized@);
    }
    normalized
}

/// Whether a control character stands at a position of `from` up to but without `to`, other than a
/// newline or a tab where these are allowed.
fn finds_control(chars: &Vec<char>, from: usize, to: usize, breaks_allowed: bool) -> (r: bool)
    requires
        from <= to <= chars@.len(),
    ensures
        r == (if breaks_allowed {
            has_prompt_control(chars@.subrange(from as int, to as int))
        } else {
            has_control(chars@.subrange(from as int, to as int))
        }),
{
    let ghost text = chars@.subrange(from as int, to as int);
    let mut i: usize = from;
    while i < to
        invariant
            from <= i <= to <= chars@.len(),
            text == chars@.subrange(from as int, to as int),
            forall|j: int|
                0 <= j < i - from ==> !control(#[trigger] text[j]) || (breaks_allowed && (text[j]
                    == '\n' || text[j] == '\t')),
        decreases to - i,
    {
        let c = chars[i];
        assert(text[i - from] == c);
        if is_control(c) && !(breaks_allowed && (c == '\n' || c == '\t')) {
            return true;
        }
        i = i + 1;
    }
    false
}

proof fn lemma_views_update(list: Seq<PromptSnippet>, i: int, s: PromptSnippet)
    requires
        0 <= i < list.len(),
    ensures
        snippet_views(list.update(i, s)) == snippet_views(list).update(i, s@),
        snippet_views(list.remove(i)) == snippet_views(list).remove(i),
{
    assert(snippet_views(list.update(i, s)) =~= snippet_views(list).update(i, s@));
    assert(snippet_views(list.remove(i)) =~= snippet_views(list).remove(i));
}

proof fn lemma_views_push(list: Seq<PromptSnippet>, s: PromptSnippet)
    ensures
        snippet_views(list.push(s)) == snippet_views(list).push(s@),
{
    assert(snippet_views(list.push(s)) =~= snippet_views(list).push(s@));
}

impl SnippetModal {
    /// The lists after saving what the editor holds.
    pub open spec fn lists_after_save(&self) -> ListsView {
        saved_lists(
            snippet_views(self.global@),
            snippet_views(self.project@),
            self.editing,
            self.editor_scope,
            (trim(self.editor_name.chars@), normalized_breaks(self.editor_prompt.chars@)),
        )
    }

    /// Why the editor's snippet cannot be saved.
    pub open spec fn problem(&self) -> Option<SnippetProblem> {
        save_problem(
            self.editor_name.chars@,
            self.editor_prompt.chars@,
            self.editor_scope,
            self.project_root is Some,
        )
    }

    /// The change that saving the editor's snippet asks for, and the position that is selected once
    /// it is stored.
    pub fn plan_save(&self) -> (plan: Result<(SnippetUpdate, usize), SnippetProblem>)
        requires
            self.wf(),
            self.screen == SnippetScreen::Editor,
        ensures
            match plan {
                Ok((update, selected)) => self.problem() is None && save_planned(
                    *self,
                    update,
                    selected,
                ),
                Err(problem) => self.problem() == Some(problem),
            },
    {
        let name_range = trim_range(&self.editor_name.chars);
        let prompt_chars = normalize_breaks(&self.editor_prompt.chars);
        let prompt_range = trim_range(&prompt_chars);
        if name_range.0 == name_range.1 || prompt_range.0 == prompt_range.1 {
            return Err(SnippetProblem::Incomplete);
        }
        assert(trim(self.editor_name.chars@).len() == name_range.1 - name_range.0);
        assert(prompt_chars@.subrange(0, prompt_chars@.len() as int) == prompt_chars@);
        if finds_control(&self.editor_name.chars, name_range.0, name_range.1, false)
            || finds_control(&prompt_chars, 0, prompt_chars.len(), true) {
            return Err(SnippetProblem::ControlCharacters);
        }
        if self.editor_scope == SnippetScope::Project && self.project_root.is_none() {
            return Err(SnippetProblem::NoProject);
        }
        let snippet = PromptSnippet {
            name: text_between(&self.editor_name.chars, name_range.0, name_range.1),
            prompt: text_of(&prompt_chars),
        };
        let ghost saved = snippet@;
        let mut global = copy_snippets(&self.global);
        let mut project = copy_snippets(&self.project);
        let target = self.editor_scope;
        let selected: usize;
        match self.editing {
            Some((SnippetScope::Global, index)) => {
                if target == SnippetScope::Global {
                    proof {
                        lemma_views_update(global@, index as int, snippet);
                    }
                    global.set(index, snippet);
                    selected = index;
                } else {
                    proof {
                        lemma_views_update(global@, index as int, snippet);
                        lemma_views_push(project@, snippet);
                    }
                    global.remove(index);
                    project.push(snippet);
                    selected = global.len() + (project.len() - 1);
                }
            },
            Some((SnippetScope::Project, index)) => {
                if target == SnippetScope::Project {
                    proof {
                        lemma_views_update(project@, index as int, snippet);
                    }
                    project.set(index, snippet);
                    selected = global.len() + index;
                } else {
                    proof {
                        lemma_views_update(project@, index as int, snippet);
                        lemma_views_push(global@, snippet);
                    }
                    project.remove(index);
                    global.push(snippet);
                    selected = global.len() - 1;
                }
            },
            None => {
                if target == SnippetScope::Global {
                    proof {
                        lemma_views_push(global@, snippet);
                    }
                    global.push(snippet);
                    selected = global.len() - 1;
                } else {
                    proof {
                        lemma_views_push(project@, snippet);
                    }
                    project.push(snippet);
                    selected = global.len() + (project.len() - 1);
                }
            },
        }
        let (from_global, from_project): (bool, bool) = match self.editing {
            Some((SnippetScope::Global, _)) => (true, false),
            Some((SnippetScope::Project, _)) => (false, true),
            None => (false, false),
        };
        let update = SnippetUpdate {
            global,
            project,
            original_global: copy_snippets(&self.original_global),
            original_project: copy_snippets(&self.original_project),
            project_root: self.project_root.clone(),
            global_dirty: from_global || target == SnippetScope::Global,
            project_dirty: from_project || target == SnippetScope::Project,
        };
        Ok((update, selected))
    }

    /// Takes in whether a planned change was stored: the dialog shows the new lists, or the error.
    pub fn finish_save(
        &mut self,
        update: SnippetUpdate,
        selected: usize,
        stored: Result<(), String>,
    )
        requires
            update.global@.len() + update.project@.len() < usize::MAX,
            selected < usize::MAX,
        ensures
            old(self).wf() ==> final(self).wf(),
            match stored {
                Ok(_) => {
                    &&& final(self).original_global@ == update.global@
                    &&& final(self).original_project@ == update.project@
                    &&& *final(self) == (SnippetModal {
                        screen: SnippetScreen::List,
                        selected,
                        global: update.global,
                        project: update.project,
                        original_global: final(self).original_global,
                        original_project: final(self).original_project,
                        error: None,
                        ..*old(self)
                    })
                },
                Err(error) => {
                    &&& final(self).error is Some
                    &&& final(self).error->0@ == "Cannot save snippet: "@ + error@
                    &&& *final(self) == (SnippetModal { error: final(self).error, ..*old(self) })
                },
            },
    {
        match stored {
            Ok(_) => {
                self.original_global = copy_snippets(&update.global);
                self.original_project = copy_snippets(&update.project);
                self.global = update.global;
                self.project = update.project;
                self.selected = selected;
                self.cancel_subscreen();
            },
            Err(error) => {
                let mut message = "Cannot save snippet: ".to_owned();
                message.append(error.as_str());
                self.error = Some(message);
            },
        }
    }

    /// The change that deleting the selected snippet asks for.
    pub fn plan_delete(&self) -> (plan: Option<SnippetUpdate>)
        ensures
            match plan {
                Some(update) => deletion_planned(*self, update),
                None => entry_at(
                    self.global@.len(),
                    self.project@.len(),
                    self.selected as int,
                ) is None,
            },
    {
        let (scope, index) = match self.selected_entry() {
            Some((scope, index, _)) => (scope, index),
            None => {
                return None;
            },
        };
        let mut global = copy_snippets(&self.global);
        let mut project = copy_snippets(&self.project);
        match scope {
            SnippetScope::Global => {
                global.remove(index);
            },
            SnippetScope::Project => {
                project.remove(index);
            },
        }
        Some(
            SnippetUpdate {
                global,
                project,
                original_global: copy_snippets(&self.original_global),
                original_project: copy_snippets(&self.original_project),
                project_root: self.project_root.clone(),
                global_dirty: scope == SnippetScope::Global,
                project_dirty: scope == SnippetScope::Project,
            },
        )
    }

    /// Takes in whether a planned deletion was stored: the selection stays in the shorter list, or
    /// the error is shown in the list.
    pub fn finish_delete(&mut self, update: SnippetUpdate, stored: Result<(), String>)
        requires
            update.global@.len() + update.project@.len() < usize::MAX,
        ensures
            old(self).wf() ==> final(self).wf(),
            match stored {
                Ok(_) => {
                    let count = update.global@.len() + update.project@.len();
                    &&& final(self).original_global@ == update.global@
                    &&& final(self).original_project@ == update.project@
                    &&& *final(self) == (SnippetModal {
                        screen: SnippetScreen::List,
                        selected: if old(self).selected < count {
                            old(self).selected
                        } else if count == 0 {
                            0usize
                        } else {
                            (count - 1) as usize
                        },
                        global: update.global,
                        project: update.project,
                        original_global: final(self).original_global,
                        original_project: final(self).original_project,
                        error: None,
                        ..*old(self)
                    })
                },
                Err(error) => {
                    &&& final(self).error is Some
                    &&& final(self).error->0@ == "Cannot delete snippet: "@ + error@
                    &&& *final(self) == (SnippetModal {
                        screen: SnippetScreen::List,
                        error: final(self).error,
                        ..*old(self)
                    })
                },
            },
    {
        match stored {
            Ok(_) => {
                self.original_global = copy_snippets(&update.global);
                self.original_project = copy_snippets(&update.project);
                self.global = update.global;
                self.project = update.project;
                let count: usize = self.global.len() + self.project.len();
                let last: usize = count.saturating_sub(1);
                if self.selected > last {
                    self.selected = last;
                }
                self.cancel_subscreen();
            },
            Err(error) => {
                self.screen = SnippetScreen::List;
                let mut message = "Cannot delete snippet: ".to_owned();
                message.append(error.as_str());
                self.error = Some(message);
            },
        }
    }

    /// Moves the editor's snippet to the other scope; the project scope needs a project.
    pub fn toggle_scope(&mut self)
        ensures
            old(self).wf() ==> final(self).wf(),
            scope_toggled(*old(self), *final(self)),
    {
        self.error = None;
        match self.editor_scope {
            SnippetScope::Global => {
                if self.project_root.is_some() {
                    self.editor_scope = SnippetScope::Project;
                } else {
                    self.error = Some("No Git project detected for this session".to_owned());
                }
            },
            SnippetScope::Project => {
                self.editor_scope = SnippetScope::Global;
            },
        }
    }
}

/// Saving an edited snippet in its own scope keeps the order and the number of snippets; every other
/// entry stays.
pub proof fn law_editing_in_place_keeps_the_order(modal: SnippetModal)
    requires
        modal.wf(),
        modal.screen == SnippetScreen::Editor,
        modal.editing matches Some((scope, _)) && scope == modal.editor_scope,
    ensures
        ({
            let lists = modal.lists_after_save();
            let (scope, i) = modal.editing->0;
            &&& lists.global.len() == modal.global@.len()
            &&& lists.project.len() == modal.project@.len()
            &&& forall|j: int|
                0 <= j < modal.global@.len() && !(scope == SnippetScope::Global && j == i)
                    ==> #[trigger] lists.global[j] == modal.global@[j]@
            &&& forall|j: int|
                0 <= j < modal.project@.len() && !(scope == SnippetScope::Project && j == i)
                    ==> #[trigger] lists.project[j] == modal.project@[j]@
        }),
{
}

/// Whatever is saved, the selection is on the saved snippet, and it stands in the scope it was saved
/// in.
pub proof fn law_saved_snippet_is_selected(modal: SnippetModal)
    requires
        modal.wf(),
        modal.screen == SnippetScreen::Editor,
    ensures
        ({
            let lists = modal.lists_after_save();
            let saved = (
                trim(modal.editor_name.chars@),
                normalized_breaks(modal.editor_prompt.chars@),
            );
            match entry_at(lists.global.len(), lists.project.len(), lists.selected) {
                Some((SnippetScope::Global, i)) => modal.editor_scope == SnippetScope::Global
                    && lists.global[i] == saved,
                Some((SnippetScope::Project, i)) => modal.editor_scope == SnippetScope::Project
                    && lists.project[i] == saved,
                None => false,
            }
        }),
{
}

/// Normalised text has no carriage return, and normalising it again changes nothing.
pub proof fn law_normalized_text_is_stable(text: Seq<char>)
    ensures
        !normalized_breaks(text).contains('\r'),
        normalized_breaks(normalized_breaks(text)) == normalized_breaks(text),
    decreases text.len(),
{
    if text.len() > 0 {
        let (first, rest) = if text[0] == '\r' {
            ('\n', if text.len() > 1 && text[1] == '\n' { text.skip(2) } else { text.skip(1) })
        } else {
            (text[0], text.skip(1))
        };
        law_normalized_text_is_stable(rest);
        let whole = normalized_breaks(text);
        let tail = normalized_breaks(rest);
        assert(whole == seq![first] + tail);
        assert(whole.skip(1) == tail);
        assert forall|i: int| 0 <= i < whole.len() implies whole[i] != '\r' by {
            if i > 0 {
                assert(whole[i] == tail[i - 1]);
                assert(tail.contains(tail[i - 1]));
            }
        }
        assert(whole[0] == first);
    } else {
        assert(normalized_breaks(text) == text);
    }
}

/// The digits count the snippets from one, and the tenth has the zero.
pub proof fn law_quick_digits_count_from_one(index: int)
    ensures
        0 <= index < 9 ==> (quick_label(index) matches Some(c) && c as u32 == 49 + index),
        quick_label(9) == Some('0'),
{
}

/// A new snippet comes last in the list of its scope, and nothing else changes.
pub proof fn law_new_snippets_come_last(modal: SnippetModal)
    requires
        modal.editing is None,
    ensures
        ({
            let lists = modal.lists_after_save();
            let own = modal.editor_scope == SnippetScope::Global;
            let (grown, other) = if own {
                (lists.global, lists.project)
            } else {
                (lists.project, lists.global)
            };
            let (before, beside) = if own {
                (snippet_views(modal.global@), snippet_views(modal.project@))
            } else {
                (snippet_views(modal.project@), snippet_views(modal.global@))
            };
            &&& other == beside
            &&& grown.len() == before.len() + 1
            &&& grown.drop_last() == before
            &&& grown.last().0 == trim(modal.editor_name.chars@)
            &&& grown.last().1 == normalized_breaks(modal.editor_prompt.chars@)
        }),
{
    let lists = modal.lists_after_save();
    if modal.editor_scope == SnippetScope::Global {
        assert(lists.global.drop_last() =~= snippet_views(modal.global@));
    } else {
        assert(lists.project.drop_last() =~= snippet_views(modal.project@));
    }
}

/// A snippet that moves to the other scope leaves its list and comes last in the other; all others stay
/// where they are.
pub proof fn law_moved_snippets_change_lists(modal: SnippetModal, k: int)
    requires
        modal.wf(),
        modal.screen == SnippetScreen::Editor,
        modal.editing matches Some((scope, _)) && scope != modal.editor_scope,
    ensures
        ({
            let lists = modal.lists_after_save();
            let (scope, i) = modal.editing->0;
            let (left, came) = if scope == SnippetScope::Global {
                (lists.global, lists.project)
            } else {
                (lists.project, lists.global)
            };
            let (before, beside) = if scope == SnippetScope::Global {
                (snippet_views(modal.global@), snippet_views(modal.project@))
            } else {
                (snippet_views(modal.project@), snippet_views(modal.global@))
            };
            &&& left.len() == before.len() - 1
            &&& 0 <= k < i ==> left[k] == before[k]
            &&& i < k < before.len() ==> left[k - 1] == before[k]
            &&& came.len() == beside.len() + 1
            &&& came.drop_last() == beside
            &&& came.last().0 == trim(modal.editor_name.chars@)
            &&& came.last().1 == normalized_breaks(modal.editor_prompt.chars@)
        }),
{
    let lists = modal.lists_after_save();
    if modal.editor_scope == SnippetScope::Global {
        assert(lists.global.drop_last() =~= snippet_views(modal.global@));
    } else {
        assert(lists.project.drop_last() =~= snippet_views(modal.project@));
    }
}

/// Every list that saving changes is written.
pub proof fn law_changed_lists_are_written(modal: SnippetModal, update: SnippetUpdate, selected: usize)
    requires
        save_planned(modal, update, selected),
    ensures
        snippet_views(update.global@) != snippet_views(modal.global@) ==> update.global_dirty,
        snippet_views(update.project@) != snippet_views(modal.project@) ==> update.project_dirty,
        update.original_global@ == modal.original_global@,
        update.original_project@ == modal.original_project@,
{
}

/// A snippet is saved exactly where it has a name and a prompt, where neither holds control characters,
/// but for breaks and tabs in the prompt, and where there is a project if it belongs to one.
pub proof fn law_complete_snippets_are_saved(
    name: Seq<char>,
    prompt: Seq<char>,
    scope: SnippetScope,
    has_project: bool,
)
    ensures
        save_problem(name, prompt, scope, has_project) is None <==> {
            &&& trim(name).len() > 0
            &&& trim(normalized_breaks(prompt)).len() > 0
            &&& forall|i: int| 0 <= i < trim(name).len() ==> !control(#[trigger] trim(name)[i])
            &&& forall|i: int|
                0 <= i < normalized_breaks(prompt).len() ==> (control(
                    #[trigger] normalized_breaks(prompt)[i],
                ) ==> normalized_breaks(prompt)[i] == '\n' || normalized_breaks(prompt)[i] == '\t')
            &&& scope == SnippetScope::Project ==> has_project
        },
{
}

/// A text without carriage returns is kept as it is, and each of the three ways to end a line ends one
/// line.
pub proof fn law_every_break_is_one_newline(text: Seq<char>, rest: Seq<char>)
    requires
        !text.contains('\r'),
    ensures
        normalized_breaks(text) == text,
        normalized_breaks(text + seq!['\r', '\n'] + rest) == text + seq!['\n'] + normalized_breaks(rest),
        rest.len() == 0 || rest[0] != '\n' ==> normalized_breaks(text + seq!['\r'] + rest) == text + seq![
            '\n',
        ] + normalized_breaks(rest),
    decreases text.len(),
{
    let none = Seq::<char>::empty();
    if text.len() == 0 {
        let windows = text + seq!['\r', '\n'] + rest;
        let old_mac = text + seq!['\r'] + rest;
        assert(text =~= none);
        assert(windows.skip(2) =~= rest);
        assert(old_mac.skip(1) =~= rest);
        assert(normalized_breaks(windows) =~= text + seq!['\n'] + normalized_breaks(rest));
        if rest.len() == 0 || rest[0] != '\n' {
            assert(normalized_breaks(old_mac) =~= text + seq!['\n'] + normalized_breaks(rest));
        }
    } else {
        assert(text[0] != '\r') by {
            assert(text.contains(text[0]));
        }
        let shorter = text.skip(1);
        assert(!shorter.contains('\r')) by {
            if shorter.contains('\r') {
                let i = choose|i: int| 0 <= i < shorter.len() && shorter[i] == '\r';
                assert(text[i + 1] == '\r');
            }
        }
        law_every_break_is_one_newline(shorter, rest);
        assert(seq![text[0]] + shorter =~= text);
        let windows = text + seq!['\r', '\n'] + rest;
        let old_mac = text + seq!['\r'] + rest;
        assert(windows.skip(1) =~= shorter + seq!['\r', '\n'] + rest);
        assert(old_mac.skip(1) =~= shorter + seq!['\r'] + rest);
        assert(normalized_breaks(windows) =~= text + seq!['\n'] + normalized_breaks(rest));
        if rest.len() == 0 || rest[0] != '\n' {
            assert(normalized_breaks(old_mac) =~= text + seq!['\n'] + normalized_breaks(rest));
        }
    }
}

/// Deleting takes out the snippet that is selected, and no other, and writes the list that it was in.
pub proof fn law_the_selected_snippet_is_deleted(modal: SnippetModal, update: SnippetUpdate)
    requires
        deletion_planned(modal, update),
    ensures
        ({
            let at = modal.selected as int;
            let before = snippet_views(modal.global@) + snippet_views(modal.project@);
            let after = snippet_views(update.global@) + snippet_views(update.project@);
            &&& 0 <= at < before.len()
            &&& after == before.remove(at)
            &&& before[at] == modal.snippet_at(at)
            &&& update.global_dirty <==> at < modal.global@.len()
            &&& update.project_dirty <==> at >= modal.global@.len()
        }),
{
    let at = modal.selected as int;
    let before = snippet_views(modal.global@) + snippet_views(modal.project@);
    let after = snippet_views(update.global@) + snippet_views(update.project@);
    assert(after =~= before.remove(at));
}

} // verus!
