//! The notes of a session.

use copilot_session_tui::editor::{CursorPosition, TextEditor};
use copilot_session_tui::input::{Event, KeyCode, KeyEvent, KeyModifiers};
use copilot_session_tui::scratchpad::{
    delete, digest_file_name, open_editor, scratchpad_file_name, scratchpad_path_in,
    scratchpad_root, FileRead, FileRemoval, InputOutcome, Scratchpad, ScratchpadRequest,
    AUTOSAVE_DELAY,
};
use sha2::{Digest, Sha256};
use std::path::Path;

fn key(code: KeyCode, modifiers: KeyModifiers) -> Event {
    Event::Key(KeyEvent::new(code, modifiers))
}

#[test]
fn unsupported_terminal_keys_are_ignored() {
    let mut scratchpad = Scratchpad::open("test-session");

    let request = scratchpad.handle_event(&key(KeyCode::F(1), KeyModifiers::none()), false);

    assert_eq!(request, ScratchpadRequest::Nothing);
    assert!(!scratchpad.is_dirty());
}

#[test]
fn scratchpad_filename_does_not_expose_session_id() {
    let root = "scratchpads";
    let text = scratchpad_path_in(root, "../unsafe/session", false);
    let path = Path::new(&text);

    assert_eq!(path.parent(), Some(Path::new(root)));
    assert_eq!(path.extension().and_then(|value| value.to_str()), Some("txt"));
    assert!(!path.to_string_lossy().contains("unsafe"));
}

#[test]
fn the_file_is_named_by_the_digest_of_the_session() {
    assert_eq!(digest_file_name(&vec![0x00, 0xab, 0x0f]), "00ab0f.txt");
    let digest = Sha256::digest(b"session/id").to_vec();
    assert_eq!(scratchpad_file_name("session/id"), digest_file_name(&digest));
    assert_eq!(
        scratchpad_file_name(""),
        "e3b0c44298fc1c149afbf4c8996fb92427ae41e4649b934ca495991b7852b855.txt"
    );
}

#[test]
fn notes_are_kept_below_the_users_data() {
    let some = |text: &str| Some(text.to_string());
    assert_eq!(
        scratchpad_root(&some("/data"), &some("/home/me"), false),
        "/data/copilot-session-tui/scratchpads"
    );
    assert_eq!(
        scratchpad_root(&None, &some("/home/me"), false),
        "/home/me/.local/share/copilot-session-tui/scratchpads"
    );
    assert_eq!(
        scratchpad_root(&None, &None, false),
        "./.local/share/copilot-session-tui/scratchpads"
    );
}

#[test]
fn edited_notes_are_saved_after_a_pause() {
    let mut scratchpad = Scratchpad::open("test-session");
    assert!(!scratchpad.autosave_if_due(0));
    let request = scratchpad.handle_event(&key(KeyCode::Char('a'), KeyModifiers::none()), true);
    assert_eq!(request, ScratchpadRequest::Edit);
    scratchpad.edited(true, None, 1_000);
    assert!(scratchpad.is_dirty() && scratchpad.autosave_pending());
    assert!(!scratchpad.autosave_if_due(1_000 + AUTOSAVE_DELAY - 1));
    assert!(scratchpad.autosave_if_due(1_000 + AUTOSAVE_DELAY));
    scratchpad.autosave_failed(2_000);
    assert!(!scratchpad.autosave_if_due(2_000));
    let editor = TextEditor::new("ab\ncd");
    assert_eq!(scratchpad.save(&editor, true).text.as_deref(), Some("ab\ncd"));
    scratchpad.written();
    assert!(!scratchpad.is_dirty());
    assert_eq!(scratchpad.save(&editor, true).text, None);
    assert_eq!(scratchpad.save(&editor, false).text.as_deref(), Some("ab\ncd"));
}

#[test]
fn cursor_position_restores_and_clamps_to_content() {
    let mut scratchpad = Scratchpad::open("cursor-session");
    let mut editor = TextEditor::new("first\nsecond");
    editor.set_cursor(CursorPosition { row: 1, col: 4 });
    scratchpad.edited(true, None, 0);
    let save = scratchpad.save(&editor, false);
    scratchpad.written();
    assert_eq!(save.cursor, CursorPosition { row: 1, col: 4 });

    let read = FileRead::Text(save.text.unwrap());
    let mut restored = open_editor("notes.txt", read, save.cursor).unwrap();
    assert_eq!(restored.cursor_position(), CursorPosition { row: 1, col: 4 });
    assert_eq!(restored.text(), "first\nsecond");

    restored.set_cursor(CursorPosition { row: 0, col: 3 });
    assert!(!scratchpad.is_dirty());
    let moved = scratchpad.save(&restored, true);
    assert_eq!(moved.text, None);
    let read = FileRead::Text("first\nsecond".to_string());
    let after_cursor_only_move = open_editor("notes.txt", read, moved.cursor).unwrap();
    assert_eq!(after_cursor_only_move.cursor_position(), CursorPosition { row: 0, col: 3 });

    let read = FileRead::Text("short".to_string());
    let far = CursorPosition { row: 99, col: 99 };
    let clamped = open_editor("notes.txt", read, far).unwrap();
    assert_eq!(clamped.cursor_position(), CursorPosition { row: 0, col: 5 });
}

#[test]
fn notes_that_cannot_be_read_are_reported() {
    let start = CursorPosition { row: 0, col: 0 };
    assert_eq!(open_editor("notes.txt", FileRead::Missing, start).unwrap().text(), "");
    let failure = open_editor("notes.txt", FileRead::Failed("denied".to_string()), start).err().unwrap();
    assert_eq!(failure.messages, ["Failed to read scratchpad: notes.txt", "denied"]);
}

#[test]
fn escape_saves_and_closes() {
    let mut scratchpad = Scratchpad::open("test-session");
    let request = scratchpad.handle_event(&key(KeyCode::Esc, KeyModifiers::none()), true);
    assert_eq!(request, ScratchpadRequest::SaveAndClose);
    assert_eq!(scratchpad.saved(request, &Ok(())), InputOutcome::Close);

    let request =
        scratchpad.handle_event(&key(KeyCode::Char('s'), KeyModifiers::with_control()), true);
    assert_eq!(request, ScratchpadRequest::Save);
    assert_eq!(scratchpad.saved(request, &Ok(())), InputOutcome::Continue);
    assert_eq!(scratchpad.status_message.as_deref(), Some("Scratchpad saved"));
}

#[test]
fn removing_notes_twice_is_no_error() {
    assert!(delete("/notes/a.txt", FileRemoval::Removed).unwrap());
    assert!(!delete("/notes/a.txt", FileRemoval::Missing).unwrap());
    let failure = delete("/notes/a.txt", FileRemoval::Failed("denied".to_string())).unwrap_err();
    assert_eq!(failure.messages, ["Failed to delete scratchpad: /notes/a.txt", "denied"]);
}

#[test]
fn invented_notes_open_where_they_were_written() {
    assert!(Scratchpad::synthetic("demo", Ok(())).is_ok());
    assert!(Scratchpad::synthetic("demo", Err("denied".to_string())).is_err());
}

#[test]
fn scratchpad_round_trips_and_deletes() {
    let start = CursorPosition { row: 0, col: 0 };
    let mut scratchpad = Scratchpad::open("session/id");
    let editor = TextEditor::new("first\nsecond");
    scratchpad.edited(true, None, 0);
    let mut file = scratchpad.save(&editor, false).text;
    scratchpad.written();

    let reopened = open_editor("a.txt", FileRead::Text(file.clone().unwrap()), start).unwrap();
    assert_eq!(reopened.text(), "first\nsecond");
    let removal = |file: &mut Option<String>| match file.take() {
        Some(_) => FileRemoval::Removed,
        None => FileRemoval::Missing,
    };
    assert!(delete("a.txt", removal(&mut file)).unwrap());
    assert!(!delete("a.txt", removal(&mut file)).unwrap());
}
