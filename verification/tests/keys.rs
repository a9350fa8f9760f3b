//! Keys, pastes and mouse events as bytes, and the prefix key.

use copilot_session_tui::input::{
    KeyCode, KeyEvent, KeyModifiers, MouseButton, MouseEvent, MouseEventKind,
    MouseProtocolEncoding, MouseProtocolMode,
};
use copilot_session_tui::mux::keys::{encode, encode_mouse, encode_paste};
use copilot_session_tui::mux::{
    resolve_github_command, resolve_help_command, resolve_prefix_command, GithubCommand,
    HelpCommand, KeyChord, PrefixCommand,
};

fn key(code: KeyCode) -> KeyEvent {
    KeyEvent::new(code, KeyModifiers::none())
}

fn key_with(code: KeyCode, modifiers: KeyModifiers) -> KeyEvent {
    KeyEvent::new(code, modifiers)
}

#[test]
fn plain_characters_are_utf8() {
    assert_eq!(encode(&key(KeyCode::Char('a')), false).unwrap(), b"a");
    assert_eq!(encode(&key(KeyCode::Char('é')), false).unwrap(), "é".as_bytes());
}

#[test]
fn control_characters_map_to_c0_bytes() {
    let ctrl_b = key_with(KeyCode::Char('b'), KeyModifiers::with_control());
    assert_eq!(encode(&ctrl_b, false).unwrap(), vec![0x02]);

    let ctrl_c = key_with(KeyCode::Char('c'), KeyModifiers::with_control());
    assert_eq!(encode(&ctrl_c, false).unwrap(), vec![0x03]);

    let ctrl_v = key_with(KeyCode::Char('v'), KeyModifiers::with_control());
    assert_eq!(encode(&ctrl_v, false).unwrap(), vec![0x16]);

    let ctrl_space = key_with(KeyCode::Char(' '), KeyModifiers::with_control());
    assert_eq!(encode(&ctrl_space, false).unwrap(), vec![0x00]);
}

#[test]
fn uppercase_control_matches_lowercase() {
    let upper = key_with(KeyCode::Char('B'), KeyModifiers::with_control());
    assert_eq!(encode(&upper, false).unwrap(), vec![0x02]);
}

#[test]
fn alt_prefixes_escape() {
    let alt_x = key_with(KeyCode::Char('x'), KeyModifiers::with_alt());
    assert_eq!(encode(&alt_x, false).unwrap(), vec![0x1b, b'x']);
}

#[test]
fn cursor_keys_respect_application_mode() {
    assert_eq!(encode(&key(KeyCode::Up), false).unwrap(), b"\x1b[A");
    assert_eq!(encode(&key(KeyCode::Up), true).unwrap(), b"\x1bOA");
    assert_eq!(encode(&key(KeyCode::Left), false).unwrap(), b"\x1b[D");
}

#[test]
fn modified_cursor_keys_use_csi_with_parameters() {
    let ctrl_right = key_with(KeyCode::Right, KeyModifiers::with_control());
    // Application mode must not win over the modified form.
    assert_eq!(encode(&ctrl_right, true).unwrap(), b"\x1b[1;5C");

    let shift_up = key_with(KeyCode::Up, KeyModifiers::with_shift());
    assert_eq!(encode(&shift_up, false).unwrap(), b"\x1b[1;2A");
}

#[test]
fn editing_keys_use_tilde_sequences() {
    assert_eq!(encode(&key(KeyCode::Delete), false).unwrap(), b"\x1b[3~");
    assert_eq!(encode(&key(KeyCode::PageUp), false).unwrap(), b"\x1b[5~");
    let ctrl_delete = key_with(KeyCode::Delete, KeyModifiers::with_control());
    assert_eq!(encode(&ctrl_delete, false).unwrap(), b"\x1b[3;5~");
}

#[test]
fn enter_tab_backspace_and_escape() {
    assert_eq!(encode(&key(KeyCode::Enter), false).unwrap(), b"\r");
    assert_eq!(encode(&key(KeyCode::Tab), false).unwrap(), b"\t");
    assert_eq!(encode(&key(KeyCode::Backspace), false).unwrap(), vec![0x7f]);
    assert_eq!(encode(&key(KeyCode::Esc), false).unwrap(), vec![0x1b]);
    assert_eq!(encode(&key(KeyCode::BackTab), false).unwrap(), b"\x1b[Z");
}

#[test]
fn function_keys_split_between_ss3_and_csi() {
    assert_eq!(encode(&key(KeyCode::F(1)), false).unwrap(), b"\x1bOP");
    assert_eq!(encode(&key(KeyCode::F(5)), false).unwrap(), b"\x1b[15~");
    assert_eq!(encode(&key(KeyCode::F(12)), false).unwrap(), b"\x1b[24~");
    let shift_f1 = key_with(KeyCode::F(1), KeyModifiers::with_shift());
    assert_eq!(encode(&shift_f1, false).unwrap(), b"\x1b[11;2~");
}

#[test]
fn unsupported_keys_are_dropped() {
    assert!(encode(&key(KeyCode::F(20)), false).is_none());
    let ctrl_digit = key_with(KeyCode::Char('5'), KeyModifiers::with_control());
    assert!(encode(&ctrl_digit, false).is_none());
}

#[test]
fn paste_is_bracketed_only_when_enabled() {
    assert_eq!(encode_paste("", false), vec![0x16]);
    assert_eq!(encode_paste("hi", false), b"hi");
    assert_eq!(encode_paste("hi", true), b"\x1b[200~hi\x1b[201~");
}

#[test]
fn image_and_text_paste_sequences_are_preserved() {
    assert_eq!(encode_paste("", false), vec![0x16]);
    assert_eq!(encode_paste("text", false), b"text");
    assert_eq!(encode_paste("text", true), b"\x1b[200~text\x1b[201~");
}

fn mouse(kind: MouseEventKind, column: u16, row: u16, modifiers: KeyModifiers) -> MouseEvent {
    MouseEvent { kind, column, row, modifiers }
}

#[test]
fn keys_sgr_mouse_encoding_forwards_scroll_drag_and_release() {
    let scroll = mouse(MouseEventKind::ScrollUp, 9, 5, KeyModifiers::none());
    let drag = mouse(MouseEventKind::Drag(MouseButton::Left), 9, 5, KeyModifiers::with_control());
    let release = mouse(MouseEventKind::Up(MouseButton::Left), 9, 5, KeyModifiers::none());

    assert_eq!(
        encode_mouse(
            scroll,
            (10, 6),
            MouseProtocolMode::PressRelease,
            MouseProtocolEncoding::Sgr,
        ),
        Some(b"\x1b[<64;10;6M".to_vec())
    );
    assert_eq!(
        encode_mouse(
            drag,
            (10, 6),
            MouseProtocolMode::ButtonMotion,
            MouseProtocolEncoding::Sgr,
        ),
        Some(b"\x1b[<48;10;6M".to_vec())
    );
    assert_eq!(
        encode_mouse(
            release,
            (10, 6),
            MouseProtocolMode::PressRelease,
            MouseProtocolEncoding::Sgr,
        ),
        Some(b"\x1b[<0;10;6m".to_vec())
    );
}

#[test]
fn terminal_pane_sgr_mouse_encoding_forwards_scroll_drag_and_release() {
    let scroll = mouse(MouseEventKind::ScrollUp, 10, 25, KeyModifiers::none());
    let drag = mouse(MouseEventKind::Drag(MouseButton::Left), 10, 25, KeyModifiers::with_control());
    let release = mouse(MouseEventKind::Up(MouseButton::Left), 10, 25, KeyModifiers::none());

    assert_eq!(
        encode_mouse(
            scroll,
            (10, 6),
            MouseProtocolMode::PressRelease,
            MouseProtocolEncoding::Sgr,
        ),
        Some(b"\x1b[<64;10;6M".to_vec())
    );
    assert_eq!(
        encode_mouse(
            drag,
            (10, 6),
            MouseProtocolMode::ButtonMotion,
            MouseProtocolEncoding::Sgr,
        ),
        Some(b"\x1b[<48;10;6M".to_vec())
    );
    assert_eq!(
        encode_mouse(
            release,
            (10, 6),
            MouseProtocolMode::PressRelease,
            MouseProtocolEncoding::Sgr,
        ),
        Some(b"\x1b[<0;10;6m".to_vec())
    );
    assert_eq!(
        encode_mouse(
            drag,
            (10, 6),
            MouseProtocolMode::PressRelease,
            MouseProtocolEncoding::Sgr,
        ),
        None
    );
}

#[test]
fn other_mouse_encodings_write_the_cell_as_characters() {
    let press = mouse(MouseEventKind::Down(MouseButton::Left), 0, 0, KeyModifiers::none());
    assert_eq!(
        encode_mouse(press, (1, 1), MouseProtocolMode::Press, MouseProtocolEncoding::Default),
        Some(vec![0x1b, b'[', b'M', 32, 33, 33])
    );
    // A column beyond what one byte can hold cannot be reported without another encoding.
    assert_eq!(
        encode_mouse(press, (300, 1), MouseProtocolMode::Press, MouseProtocolEncoding::Default),
        None
    );
    let wide = char::from_u32(332).unwrap().to_string();
    let mut expected = vec![0x1b, b'[', b'M', 32];
    expected.extend(wide.as_bytes());
    expected.push(33);
    assert_eq!(
        encode_mouse(press, (300, 1), MouseProtocolMode::Press, MouseProtocolEncoding::Utf8),
        Some(expected)
    );
}

#[test]
fn parses_common_chord_spellings() {
    let ctrl_b = KeyChord::parse("C-b").unwrap();
    assert_eq!(ctrl_b.code, KeyCode::Char('b'));
    assert_eq!(ctrl_b.modifiers, KeyModifiers::with_control());

    assert_eq!(KeyChord::parse("ctrl-b"), Some(ctrl_b));
    assert_eq!(KeyChord::parse("C-B"), KeyChord::parse("C-b"));
    assert_eq!(KeyChord::parse("C-Space").unwrap().code, KeyCode::Char(' '));
    assert_eq!(KeyChord::parse("M-x").unwrap().modifiers, KeyModifiers::with_alt());
    assert_eq!(KeyChord::parse("F5").unwrap().code, KeyCode::F(5));
}

#[test]
fn rejects_chords_that_would_swallow_typing() {
    assert!(KeyChord::parse("b").is_none());
    assert!(KeyChord::parse("").is_none());
    assert!(KeyChord::parse("C-").is_none());
    assert!(KeyChord::parse("C-nope").is_none());
    assert!(KeyChord::parse("F42").is_none());
}

#[test]
fn matching_ignores_case_and_irrelevant_modifiers() {
    let chord = KeyChord::parse("C-b").unwrap();
    assert!(chord.matches(&key_with(KeyCode::Char('b'), KeyModifiers::with_control())));
    assert!(chord.matches(&key_with(KeyCode::Char('B'), KeyModifiers::with_control())));
    assert!(!chord.matches(&key_with(KeyCode::Char('b'), KeyModifiers::none())));
    assert!(!chord.matches(&key_with(
        KeyCode::Char('b'),
        KeyModifiers { control: true, alt: true, ..KeyModifiers::none() }
    )));
}

#[test]
fn label_round_trips() {
    for text in ["C-b", "M-x", "C-Space"] {
        let chord = KeyChord::parse(text).unwrap();
        assert_eq!(KeyChord::parse(&chord.label()), Some(chord));
    }
}

#[test]
fn double_prefix_sends_a_literal() {
    let chord = KeyChord::parse("C-b").unwrap();
    let pressed = key_with(KeyCode::Char('b'), KeyModifiers::with_control());
    assert_eq!(resolve_prefix_command(&pressed, &chord), Some(PrefixCommand::Literal));
}

#[test]
fn prefix_commands_map_to_actions() {
    let chord = KeyChord::parse("C-b").unwrap();
    let none = KeyModifiers::none();
    let control = KeyModifiers::with_control();
    assert_eq!(
        resolve_prefix_command(&key_with(KeyCode::Char('d'), none), &chord),
        Some(PrefixCommand::Detach)
    );
    assert_eq!(
        resolve_prefix_command(&key_with(KeyCode::Char('x'), none), &chord),
        Some(PrefixCommand::KillPane)
    );
    assert_eq!(
        resolve_prefix_command(&key_with(KeyCode::Char('c'), none), &chord),
        Some(PrefixCommand::Chat)
    );
    assert_eq!(
        resolve_prefix_command(&key_with(KeyCode::Char('e'), none), &chord),
        Some(PrefixCommand::Scratchpad)
    );
    assert_eq!(
        resolve_prefix_command(&key_with(KeyCode::Char('t'), none), &chord),
        Some(PrefixCommand::Terminal)
    );
    assert_eq!(
        resolve_prefix_command(&key_with(KeyCode::Char('s'), none), &chord),
        Some(PrefixCommand::Snippets)
    );
    assert_eq!(
        resolve_prefix_command(&key_with(KeyCode::Char('h'), control), &chord),
        Some(PrefixCommand::Help)
    );
    assert_eq!(
        resolve_prefix_command(&key_with(KeyCode::Char('g'), control), &chord),
        Some(PrefixCommand::Github)
    );
    assert_eq!(
        resolve_prefix_command(&key_with(KeyCode::Char('q'), none), &chord),
        Some(PrefixCommand::Quit)
    );
    assert_eq!(
        resolve_prefix_command(&key_with(KeyCode::Backspace, none), &chord),
        Some(PrefixCommand::Help)
    );
    assert_eq!(
        resolve_prefix_command(&key_with(KeyCode::Char('2'), none), &chord),
        Some(PrefixCommand::SelectIndex(2))
    );
    assert_eq!(resolve_prefix_command(&key_with(KeyCode::Char('z'), none), &chord), None);
}

#[test]
fn help_commands_map_to_topics() {
    assert_eq!(
        resolve_help_command(&key_with(KeyCode::Char('e'), KeyModifiers::none())),
        Some(HelpCommand::Scratchpad)
    );
    assert_eq!(
        resolve_help_command(&key_with(KeyCode::Esc, KeyModifiers::none())),
        Some(HelpCommand::Cancel)
    );
}

#[test]
fn github_commands_map_to_inspection() {
    assert_eq!(
        resolve_github_command(&key_with(KeyCode::Char('i'), KeyModifiers::none())),
        Some(GithubCommand::Inspect)
    );
    assert_eq!(
        resolve_github_command(&key_with(KeyCode::Esc, KeyModifiers::none())),
        Some(GithubCommand::Cancel)
    );
}
