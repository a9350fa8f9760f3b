//! Pastes that arrive as keystrokes.

use copilot_session_tui::input::{Event, KeyCode, KeyEvent, KeyEventKind, KeyModifiers};
use copilot_session_tui::mux::keys::encode_paste;
use copilot_session_tui::paste::{fold, paste_char, read_events, Burst, FirstEvent};

fn press(code: KeyCode) -> Event {
    Event::Key(KeyEvent::new(code, KeyModifiers::none()))
}

fn release(code: KeyCode) -> Event {
    Event::Key(KeyEvent { code, modifiers: KeyModifiers::none(), kind: KeyEventKind::Release })
}

fn typed(text: &str) -> Vec<Event> {
    text.chars()
        .map(|c| match c {
            '\n' => press(KeyCode::Enter),
            '\t' => press(KeyCode::Tab),
            c => press(KeyCode::Char(c)),
        })
        .collect()
}

#[test]
fn folds_a_long_burst_into_one_paste() {
    let folded = fold(typed("hello world"));
    assert_eq!(folded, vec![Event::Paste("hello world".to_string())]);
}

#[test]
fn delayed_remainder_does_not_leave_the_first_character_outside_the_paste() {
    let mut queue = typed("fter the first character");
    let mut burst = Burst::begin(press(KeyCode::Char('A')));
    let mut polls = 0;
    loop {
        // Models Windows Terminal delivering the first record immediately and the remaining console
        // records a few milliseconds later.
        let timeout = burst.grace();
        let arrived = !queue.is_empty() && (polls > 0 || timeout >= 3);
        polls += 1;
        if !arrived || !burst.take(queue.remove(0)) {
            break;
        }
    }
    let events = burst.collect_run();

    assert_eq!(events, vec![Event::Paste("After the first character".to_string())]);
}

#[test]
fn keeps_newlines_as_text_instead_of_enter_presses() {
    let folded = fold(typed("first line\nsecond line"));
    assert_eq!(folded, vec![Event::Paste("first line\nsecond line".to_string())]);
}

#[test]
fn blank_lines_and_tabs_survive_the_fold() {
    let folded = fold(typed("para one\n\n\tindented"));
    assert_eq!(folded, vec![Event::Paste("para one\n\n\tindented".to_string())]);
}

#[test]
fn a_short_run_is_left_as_individual_keys() {
    // Typing "ok" then Enter must still submit, never turn into pasted text.
    let run = typed("ok\n");
    assert_eq!(fold(run.clone()), run);
}

#[test]
fn interleaved_key_releases_do_not_break_a_burst() {
    let mut run = Vec::new();
    for c in "pasted!".chars() {
        run.push(press(KeyCode::Char(c)));
        run.push(release(KeyCode::Char(c)));
    }
    run.push(press(KeyCode::Enter));
    run.push(release(KeyCode::Enter));

    assert_eq!(fold(run), vec![Event::Paste("pasted!\n".to_string())]);
}

#[test]
fn chords_and_navigation_keys_are_never_paste_text() {
    assert_eq!(paste_char(&press(KeyCode::Char('a'))), Some('a'));
    assert_eq!(paste_char(&press(KeyCode::Enter)), Some('\n'));
    assert_eq!(paste_char(&press(KeyCode::Left)), None);
    assert_eq!(paste_char(&press(KeyCode::Backspace)), None);
    assert_eq!(paste_char(&press(KeyCode::Esc)), None);
    assert_eq!(paste_char(&release(KeyCode::Char('a'))), None);
    assert_eq!(
        paste_char(&Event::Key(KeyEvent::new(KeyCode::Char('b'), KeyModifiers::with_control()))),
        None,
        "the mux prefix must survive a burst instead of being pasted"
    );
}

#[test]
fn shifted_characters_still_count_as_paste_text() {
    let shifted = Event::Key(KeyEvent::new(KeyCode::Char('A'), KeyModifiers::with_shift()));
    assert_eq!(paste_char(&shifted), Some('A'));
}

#[test]
fn a_non_text_event_is_not_swallowed_by_the_fold() {
    let mut run = typed("some pasted text");
    let folded = fold(std::mem::take(&mut run));
    assert_eq!(folded.len(), 1);
    assert!(matches!(folded[0], Event::Paste(_)));
}

#[test]
fn the_event_that_ends_a_burst_follows_it() {
    let mut burst = Burst::begin(press(KeyCode::Char('a')));
    for event in typed("bcdefgh") {
        assert!(burst.take(event));
    }
    assert!(!burst.take(press(KeyCode::Left)));
    assert_eq!(
        burst.collect_run(),
        vec![Event::Paste("abcdefgh".to_string()), press(KeyCode::Left)]
    );
}

#[test]
fn only_windows_text_begins_a_burst() {
    let letter = press(KeyCode::Char('a'));
    assert!(matches!(read_events(letter.clone(), true), FirstEvent::Gather(_)));
    assert!(matches!(read_events(letter, false), FirstEvent::Deliver(_)));
    assert!(matches!(read_events(press(KeyCode::Up), true), FirstEvent::Deliver(_)));
}

#[test]
fn a_pasted_burst_reaches_the_child_as_one_bracketed_write() {
    // Every Enter in the burst must not become its own `\r`, or the child would submit the message
    // part-way through the paste.
    let folded = fold(typed("first line\nsecond line\n\nthird line"));
    let [Event::Paste(text)] = folded.as_slice() else {
        panic!("expected the burst to fold into a single paste: {folded:?}");
    };

    let bytes = encode_paste(text, true);

    assert_eq!(bytes, b"\x1b[200~first line\nsecond line\n\nthird line\x1b[201~");
    assert!(!bytes.contains(&b'\r'), "a carriage return would submit the message mid-paste");
}
