//! The snippet dialog's lists, fields and digits.

use copilot_session_tui::snippets::{
    quick_use_index, quick_use_label, PromptSnippet, SnippetEditorField, SnippetModal, SnippetScope,
    SnippetScreen,
};

fn snippet(name: &str) -> PromptSnippet {
    PromptSnippet { name: name.to_string(), prompt: format!("{name} prompt") }
}

#[test]
fn combined_list_keeps_global_before_project_and_maps_indices() {
    let modal = SnippetModal::new(
        vec![snippet("global one"), snippet("global two")],
        vec![snippet("project")],
        Some("repo".to_string()),
    );

    assert_eq!(modal.entry(0).unwrap().0, SnippetScope::Global);
    assert_eq!(modal.entry(1).unwrap().1, 1);
    assert_eq!(modal.entry(2).unwrap().0, SnippetScope::Project);
    assert_eq!(modal.entry(2).unwrap().1, 0);
}

#[test]
fn add_defaults_to_global_and_edit_retains_scope() {
    let mut modal =
        SnippetModal::new(Vec::new(), vec![snippet("project")], Some("repo".to_string()));
    modal.begin_add();
    assert_eq!(modal.editor_scope, SnippetScope::Global);

    modal.cancel_subscreen();
    modal.begin_edit();
    assert_eq!(modal.editor_scope, SnippetScope::Project);
    assert_eq!(modal.editor_name.text(), "project");
}

#[test]
fn editor_field_order_matches_the_visual_layout() {
    assert_eq!(SnippetEditorField::Name.next(true), SnippetEditorField::Scope);
    assert_eq!(SnippetEditorField::Scope.next(true), SnippetEditorField::Prompt);
    assert_eq!(SnippetEditorField::Prompt.next(true), SnippetEditorField::Name);

    assert_eq!(SnippetEditorField::Name.next(false), SnippetEditorField::Prompt);
    assert_eq!(SnippetEditorField::Prompt.next(false), SnippetEditorField::Scope);
    assert_eq!(SnippetEditorField::Scope.next(false), SnippetEditorField::Name);
}

#[test]
fn quick_use_digits_round_trip_and_stop_after_ten_snippets() {
    assert_eq!(quick_use_label(0), Some('1'));
    assert_eq!(quick_use_label(8), Some('9'));
    assert_eq!(quick_use_label(9), Some('0'));
    assert_eq!(quick_use_label(10), None);

    for index in 0..10 {
        let digit = quick_use_label(index).expect("slot has a digit");
        assert_eq!(quick_use_index(digit), Some(index));
    }
    assert_eq!(quick_use_index('a'), None);
}

#[test]
fn the_selection_stays_inside_the_list() {
    let mut modal = SnippetModal::new(vec![snippet("a"), snippet("b")], Vec::new(), None);
    assert_eq!(modal.len(), 2);
    assert!(!modal.is_empty());
    modal.select_next();
    modal.select_next();
    assert_eq!(modal.selected_entry().unwrap().2.name, "b");
    modal.select_previous();
    modal.select_previous();
    assert_eq!(modal.selected_entry().unwrap().2.name, "a");
    modal.begin_delete();
    assert_eq!(modal.screen, SnippetScreen::ConfirmDelete);
}

#[test]
fn nothing_can_be_edited_in_an_empty_list() {
    let mut modal = SnippetModal::new(Vec::new(), Vec::new(), None);
    assert!(modal.is_empty());
    modal.begin_edit();
    modal.begin_delete();
    assert_eq!(modal.screen, SnippetScreen::List);
    assert!(modal.selected_entry().is_none());
}
