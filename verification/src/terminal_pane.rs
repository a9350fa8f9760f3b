//! Shell terminals beside the sessions: one per session, kept until they are removed.

use crate::host_terminal::{joined, progress_sequence, report_start, reported_state};
use crate::input::{
    Event, KeyCode, KeyEvent, KeyEventKind, KeyModifiers, MouseEvent, MouseProtocolMode,
};
use crate::mux::callbacks::{
    clipboard_bytes, clipboard_sequence, cursor_report, ScreenFacts,
};
use crate::mux::keys::{
    char_bytes, char_utf8, decimal_bytes, encode_paste, escaped, modified_cursor,
    modified_cursor_sequence, paste_bytes, plain_cursor, push_decimal, tilde, tilde_sequence,
};
use crate::mux::pane::{
    captured_after, mouse_report, pane_viewport, route_mouse, MouseAction, ScreenModes, Viewport,
};
use crate::mux::pty::{pty_size, ChildLook, TerminationCall};
use crate::session::worktree::Failure;
use crate::strings::{chars_of, decimal, decimal_text, same_text, text_between, trim, trim_range};
use vstd::prelude::*;

verus! {

/// The rows a terminal starts with.
pub const INITIAL_ROWS: u16 = 12;

/// The columns a terminal starts with.
pub const INITIAL_COLS: u16 = 80;

/// The rows of history a terminal keeps.
pub const SCROLLBACK_ROWS: usize = 10_000;

/// How a terminal fares.
#[derive(Debug, PartialEq, Eq)]
pub enum TerminalStatus {
    Running,
    Exited(u32),
    Failed(String),
}

impl Clone for TerminalStatus {
    fn clone(&self) -> (copy: Self)
        ensures
            copy == *self,
    {
        match self {
            TerminalStatus::Running => TerminalStatus::Running,
            TerminalStatus::Exited(code) => TerminalStatus::Exited(*code),
            TerminalStatus::Failed(error) => TerminalStatus::Failed(error.clone()),
        }
    }
}

/// What a look at the shell process showed.
#[derive(Debug, PartialEq, Eq)]
pub enum ShellCheck {
    Running,
    Exited(u32),
    /// The process could not be looked at.
    Error(String),
    /// The handle of the process cannot be used any more.
    Unavailable,
}

impl TerminalStatus {
    /// The status in words.
    pub fn describe(&self) -> (text: String)
        ensures
            text@ == (match *self {
                TerminalStatus::Running => "running"@,
                TerminalStatus::Exited(code) => "exited ("@ + decimal(code as nat) + ")"@,
                TerminalStatus::Failed(error) => "error: "@ + error@,
            }),
    {
        match self {
            TerminalStatus::Running => "running".to_owned(),
            TerminalStatus::Exited(code) => {
                let mut text = "exited (".to_owned();
                text.append(decimal_text(*code as u64).as_str());
                text.append(")");
                text
            },
            TerminalStatus::Failed(error) => {
                let mut text = "error: ".to_owned();
                text.append(error.as_str());
                text
            },
        }
    }

    /// A failure of the terminal's own plumbing counts only while it was running.
    pub fn set_failed(&mut self, error: String)
        ensures
            *final(self) == (if *old(self) is Running {
                TerminalStatus::Failed(error)
            } else {
                *old(self)
            }),
    {
        let running = match self {
            TerminalStatus::Running => true,
            _ => false,
        };
        if running {
            *self = TerminalStatus::Failed(error);
        }
    }

    /// Updates the status of a running terminal from a look at its shell; a status that is final
    /// already stays.
    pub fn refresh(&mut self, check: ShellCheck)
        ensures
            match (*old(self), check) {
                (TerminalStatus::Running, ShellCheck::Exited(code)) => *final(self)
                    == TerminalStatus::Exited(code),
                (TerminalStatus::Running, ShellCheck::Error(error)) => {
                    &&& *final(self) is Failed
                    &&& (*final(self))->Failed_0@ == "shell status check failed: "@ + error@
                },
                (TerminalStatus::Running, ShellCheck::Unavailable) => {
                    &&& *final(self) is Failed
                    &&& (*final(self))->Failed_0@ == "terminal child lock was poisoned"@
                },
                _ => *final(self) == *old(self),
            },
    {
        let running = match self {
            TerminalStatus::Running => true,
            _ => false,
        };
        if running {
            match check {
                ShellCheck::Running => {},
                ShellCheck::Exited(code) => {
                    *self = TerminalStatus::Exited(code);
                },
                ShellCheck::Error(error) => {
                    let mut message = "shell status check failed: ".to_owned();
                    message.append(error.as_str());
                    *self = TerminalStatus::Failed(message);
                },
                ShellCheck::Unavailable => {
                    *self = TerminalStatus::Failed("terminal child lock was poisoned".to_owned());
                },
            }
        }
    }
}

/// A control sequence that a shell's screen does not handle.
pub struct TerminalQuery {
    pub final_byte: char,
    pub first_intermediate: Option<u8>,
    pub second_intermediate: Option<u8>,
    /// The parameter groups.
    pub params: Vec<Vec<u16>>,
}

/// Whether the parameters are one group with one number.
pub open spec fn single_param(params: Seq<Vec<u16>>, n: u16) -> bool {
    params.len() == 1 && params[0]@ == seq![n]
}

/// `CSI ? row ; column R`, one-based.
pub open spec fn private_cursor_report(row: u16, column: u16) -> Seq<u8> {
    seq![0x1bu8, 0x5b, 0x3f] + decimal_bytes((row + 1) as nat) + seq![0x3bu8] + decimal_bytes(
        (column + 1) as nat,
    ) + seq![0x52u8]
}

/// The reply of a shell terminal: device status, cursor position in both forms, and a VT100 with
/// advanced video as device attributes.
pub open spec fn terminal_reply(query: TerminalQuery, screen: ScreenFacts) -> Option<Seq<u8>> {
    let p = query.params@;
    if query.second_intermediate is Some {
        None
    } else if query.first_intermediate is None && query.final_byte == 'n' && single_param(p, 5) {
        Some(seq![0x1bu8, 0x5b, 0x30, 0x6e])
    } else if query.first_intermediate is None && query.final_byte == 'n' && single_param(p, 6) {
        Some(cursor_report(screen.cursor_row, screen.cursor_column))
    } else if query.first_intermediate == Some(0x3fu8) && query.final_byte == 'n' && single_param(
        p,
        6,
    ) {
        Some(private_cursor_report(screen.cursor_row, screen.cursor_column))
    } else if query.first_intermediate is None && query.final_byte == 'c' && (p.len() == 0
        || single_param(p, 0)) {
        Some(seq![0x1bu8, 0x5b, 0x3f, 0x31, 0x3b, 0x32, 0x63])
    } else {
        None
    }
}

fn is_single_param(params: &Vec<Vec<u16>>, n: u16) -> (r: bool)
    ensures
        r == single_param(params@, n),
{
    let r = params.len() == 1 && params[0].len() == 1 && params[0][0] == n;
    if r {
        assert(params@[0]@ == seq![n]);
    }
    r
}

/// The answer of a shell terminal to a control sequence.
pub fn answer_terminal_query(query: &TerminalQuery, screen: ScreenFacts) -> (reply: Option<Vec<u8>>)
    ensures
        match reply {
            Some(bytes) => terminal_reply(*query, screen) == Some(bytes@),
            None => terminal_reply(*query, screen) is None,
        },
{
    if query.second_intermediate.is_some() {
        return None;
    }
    let plain = query.first_intermediate.is_none();
    let private = query.first_intermediate == Some(0x3f);
    if plain && query.final_byte == 'n' && is_single_param(&query.params, 5) {
        let bytes: Vec<u8> = vec![0x1b, 0x5b, 0x30, 0x6e];
        assert(bytes@ == seq![0x1bu8, 0x5b, 0x30, 0x6e]);
        return Some(bytes);
    }
    if (plain || private) && query.final_byte == 'n' && is_single_param(&query.params, 6) {
        let mut bytes: Vec<u8> = vec![0x1b, 0x5b];
        if private {
            bytes.push(0x3f);
        }
        push_decimal(&mut bytes, screen.cursor_row as u32 + 1);
        bytes.push(0x3b);
        push_decimal(&mut bytes, screen.cursor_column as u32 + 1);
        bytes.push(0x52);
        assert(private ==> bytes@ == private_cursor_report(screen.cursor_row, screen.cursor_column));
        assert(plain ==> bytes@ == cursor_report(screen.cursor_row, screen.cursor_column));
        return Some(bytes);
    }
    if plain && query.final_byte == 'c' && (query.params.len() == 0 || is_single_param(
        &query.params,
        0,
    )) {
        let bytes: Vec<u8> = vec![0x1b, 0x5b, 0x3f, 0x31, 0x3b, 0x32, 0x63];
        assert(bytes@ == seq![0x1bu8, 0x5b, 0x3f, 0x31, 0x3b, 0x32, 0x63]);
        return Some(bytes);
    }
    None
}

/// What a shell's operating system command passes on to the outer terminal: progress reports only.
pub fn forwarded_command(params: &Vec<Vec<u8>>) -> (sequence: Option<Vec<u8>>)
    ensures
        match sequence {
            Some(bytes) => {
                &&& reported_state(params@) is Some
                &&& bytes@ == report_start() + params@[2]@ + joined(params@, 3) + seq![0x1bu8, 0x5c]
            },
            None => reported_state(params@) is None,
        },
{
    progress_sequence(params)
}

/// What a shell's clipboard request passes on to the outer terminal.
pub fn forwarded_clipboard(selector: &Vec<u8>, data: &Vec<u8>) -> (sequence: Vec<u8>)
    ensures
        sequence@ == clipboard_bytes(selector@, data@),
{
    clipboard_sequence(selector, data)
}

/// The configured shell, where one is named: its name without surrounding whitespace.
pub fn configured_shell(shell: &Option<String>) -> (program: Option<String>)
    ensures
        match program {
            Some(name) => shell is Some && name@ == trim(shell->0@) && name@.len() > 0,
            None => shell is None || trim(shell->0@).len() == 0,
        },
{
    match shell {
        Some(text) => {
            let chars = chars_of(text.as_str());
            let range = trim_range(&chars);
            if range.0 < range.1 {
                Some(text_between(&chars, range.0, range.1))
            } else {
                None
            }
        },
        None => None,
    }
}

/// The control byte that shells expect of `Ctrl-<char>`: the range from `@` to `_` by upper case, and
/// delete for the question mark.
pub open spec fn shell_control(c: char) -> Option<u8> {
    if '@' <= c <= '_' {
        Some((c as u32 - 64) as u8)
    } else if 'a' <= c <= 'z' {
        Some((c as u32 - 96) as u8)
    } else if c == '?' {
        Some(0x7fu8)
    } else {
        None
    }
}

/// The modifier parameter of a shell key: one more than the sum of 1 for Shift, 2 for Alt, Meta or
/// Super, and 4 for Control.
pub open spec fn shell_modifier(m: KeyModifiers) -> int {
    1 + (if m.shift { 1int } else { 0 }) + (if m.escaping() { 2int } else { 0 }) + (if m.control {
        4int
    } else {
        0
    })
}

/// The bytes of a cursor key in a shell.
pub open spec fn shell_cursor(final_byte: u8, m: KeyModifiers, application: bool) -> Seq<u8> {
    if shell_modifier(m) > 1 {
        modified_cursor(shell_modifier(m) as u8, final_byte)
    } else {
        plain_cursor(final_byte, application)
    }
}

/// The bytes of an editing key in a shell.
pub open spec fn shell_tilde(number: u8, m: KeyModifiers) -> Seq<u8> {
    tilde(
        number,
        if shell_modifier(m) > 1 {
            Some(shell_modifier(m) as u8)
        } else {
            None
        },
    )
}

/// The bytes of a function key in a shell.
pub open spec fn shell_function(n: u8, m: KeyModifiers) -> Option<Seq<u8>> {
    if 1 <= n <= 4 {
        Some(shell_cursor((0x4f + n) as u8, m, true))
    } else if n == 5 {
        Some(shell_tilde(15, m))
    } else if 6 <= n <= 10 {
        Some(shell_tilde((11 + n) as u8, m))
    } else if 11 <= n <= 12 {
        Some(shell_tilde((12 + n) as u8, m))
    } else {
        None
    }
}

/// The bytes of a key in a shell, before the escape prefix that Alt adds.
pub open spec fn shell_base(key: KeyEvent, application: bool, windows: bool) -> Option<Seq<u8>> {
    let m = key.modifiers;
    match key.code {
        KeyCode::Char(c) => if m.control {
            match shell_control(c) {
                Some(byte) => Some(seq![byte]),
                None => None,
            }
        } else {
            Some(char_utf8(c))
        },
        KeyCode::Enter => if windows {
            Some(seq![0x0du8, 0x0a])
        } else {
            Some(seq![0x0du8])
        },
        KeyCode::Backspace => Some(seq![0x7fu8]),
        KeyCode::Tab => Some(seq![0x09u8]),
        KeyCode::BackTab => Some(seq![0x1bu8, 0x5b, 0x5a]),
        KeyCode::Esc => Some(seq![0x1bu8]),
        KeyCode::Up => Some(shell_cursor(0x41, m, application)),
        KeyCode::Down => Some(shell_cursor(0x42, m, application)),
        KeyCode::Right => Some(shell_cursor(0x43, m, application)),
        KeyCode::Left => Some(shell_cursor(0x44, m, application)),
        KeyCode::Home => Some(shell_cursor(0x48, m, application)),
        KeyCode::End => Some(shell_cursor(0x46, m, application)),
        KeyCode::PageUp => Some(shell_tilde(5, m)),
        KeyCode::PageDown => Some(shell_tilde(6, m)),
        KeyCode::Insert => Some(shell_tilde(2, m)),
        KeyCode::Delete => Some(shell_tilde(3, m)),
        KeyCode::F(n) => shell_function(n, m),
        _ => None,
    }
}

/// Whether Alt, Meta or Super puts an escape byte in front of a key's bytes.
pub open spec fn shell_escapes(code: KeyCode) -> bool {
    code is Char || code is Enter || code is Backspace || code is Tab || code is Esc
}

/// The bytes of a key in a shell.
pub open spec fn shell_key_bytes(key: KeyEvent, application: bool, windows: bool) -> Option<
    Seq<u8>,
> {
    match shell_base(key, application, windows) {
        Some(base) => Some(
            if key.modifiers.escaping() && shell_escapes(key.code) {
                seq![0x1bu8] + base
            } else {
                base
            },
        ),
        None => None,
    }
}

fn control_byte(c: char) -> (byte: Option<u8>)
    ensures
        byte == shell_control(c),
{
    if '@' <= c && c <= '_' {
        Some(c as u8 - 64)
    } else if 'a' <= c && c <= 'z' {
        Some(c as u8 - 96)
    } else if c == '?' {
        Some(0x7f)
    } else {
        None
    }
}

fn modifier_parameter(m: KeyModifiers) -> (parameter: u8)
    ensures
        parameter == shell_modifier(m),
{
    let mut parameter: u8 = 1;
    if m.shift {
        parameter = parameter + 1;
    }
    if m.escapes() {
        parameter = parameter + 2;
    }
    if m.control {
        parameter = parameter + 4;
    }
    parameter
}

fn cursor_sequence(final_byte: u8, m: KeyModifiers, application: bool) -> (bytes: Vec<u8>)
    ensures
        bytes@ == shell_cursor(final_byte, m, application),
{
    let parameter: u8 = modifier_parameter(m);
    if parameter > 1 {
        modified_cursor_sequence(parameter, final_byte)
    } else {
        let introducer: u8 = if application {
            0x4f
        } else {
            0x5b
        };
        let bytes: Vec<u8> = vec![0x1b, introducer, final_byte];
        assert(bytes@ == plain_cursor(final_byte, application));
        bytes
    }
}

fn modified_tilde_sequence(code: u8, m: KeyModifiers) -> (bytes: Vec<u8>)
    ensures
        bytes@ == shell_tilde(code, m),
{
    let parameter: u8 = modifier_parameter(m);
    if parameter > 1 {
        tilde_sequence(code, Some(parameter))
    } else {
        tilde_sequence(code, None)
    }
}

fn function_key_sequence(number: u8, m: KeyModifiers) -> (bytes: Option<Vec<u8>>)
    ensures
        match bytes {
            Some(b) => shell_function(number, m) == Some(b@),
            None => shell_function(number, m) is None,
        },
{
    if 1 <= number && number <= 4 {
        return Some(cursor_sequence(0x4f + number, m, true));
    }
    let code: u8 = match number {
        5 => 15,
        6 => 17,
        7 => 18,
        8 => 19,
        9 => 20,
        10 => 21,
        11 => 23,
        12 => 24,
        _ => {
            return None;
        },
    };
    Some(modified_tilde_sequence(code, m))
}

/// Encodes a key for a shell. `windows` selects the line end that Enter sends there.
pub fn encode_key(key: KeyEvent, application_cursor: bool, windows: bool) -> (bytes: Option<Vec<u8>>)
    ensures
        match bytes {
            Some(b) => shell_key_bytes(key, application_cursor, windows) == Some(b@),
            None => shell_key_bytes(key, application_cursor, windows) is None,
        },
{
    let m = key.modifiers;
    let bytes: Vec<u8> = match key.code {
        KeyCode::Char(c) => {
            if m.control {
                match control_byte(c) {
                    Some(byte) => vec![byte],
                    None => {
                        return None;
                    },
                }
            } else {
                char_bytes(c)
            }
        },
        KeyCode::Enter => {
            if windows {
                vec![0x0d, 0x0a]
            } else {
                vec![0x0d]
            }
        },
        KeyCode::Backspace => vec![0x7f],
        KeyCode::Tab => vec![0x09],
        KeyCode::BackTab => vec![0x1b, 0x5b, 0x5a],
        KeyCode::Esc => vec![0x1b],
        KeyCode::Up => cursor_sequence(0x41, m, application_cursor),
        KeyCode::Down => cursor_sequence(0x42, m, application_cursor),
        KeyCode::Right => cursor_sequence(0x43, m, application_cursor),
        KeyCode::Left => cursor_sequence(0x44, m, application_cursor),
        KeyCode::Home => cursor_sequence(0x48, m, application_cursor),
        KeyCode::End => cursor_sequence(0x46, m, application_cursor),
        KeyCode::PageUp => modified_tilde_sequence(5, m),
        KeyCode::PageDown => modified_tilde_sequence(6, m),
        KeyCode::Insert => modified_tilde_sequence(2, m),
        KeyCode::Delete => modified_tilde_sequence(3, m),
        KeyCode::F(number) => match function_key_sequence(number, m) {
            Some(bytes) => bytes,
            None => {
                return None;
            },
        },
        _ => {
            return None;
        },
    };
    assert(shell_base(key, application_cursor, windows)->0 =~= bytes@);
    let prefixed = match key.code {
        KeyCode::Char(_)
        | KeyCode::Enter
        | KeyCode::Backspace
        | KeyCode::Tab
        | KeyCode::Esc => m.escapes(),
        _ => false,
    };
    if prefixed {
        return Some(escaped(bytes));
    }
    Some(bytes)
}

/// How far the end of a shell has come.
#[derive(Debug)]
pub enum ShellEnd {
    /// The shell is to be told to end.
    Start,
    /// It was told to, and may take its time.
    Waiting,
    /// It is gone, with the exit code where that was seen.
    Gone(Option<u32>),
    /// It could not be ended.
    Failed(Failure),
}

/// The milliseconds that a shell may take to end.
pub const SHELL_PATIENCE: u64 = 3_000;

/// Whether a stage is the one after a look at a shell that was told to end.
pub open spec fn shell_waited(look: ChildLook, elapsed: u64, next: ShellEnd) -> bool {
    match look {
        ChildLook::Ended(code) => next == ShellEnd::Gone(Some(code)),
        ChildLook::Unknown(failure) => next matches ShellEnd::Failed(told) && told@ == seq![
            "Failed to check terminal shell status"@,
        ] + failure@,
        ChildLook::Running => if elapsed >= SHELL_PATIENCE {
            next matches ShellEnd::Failed(told) && told@ == seq![
                "terminal shell did not exit within 3.0s"@,
            ]
        } else {
            next == ShellEnd::Waiting
        },
    }
}

/// Whether a stage follows another. A shell that had ended before it was told to is gone at once, and
/// one that cannot be told to may have ended all the same.
pub open spec fn shell_end_effect(
    stage: ShellEnd,
    call: TerminationCall,
    look: ChildLook,
    elapsed: u64,
    next: ShellEnd,
) -> bool {
    match stage {
        ShellEnd::Start => match call {
            TerminationCall::NotMade => next == stage,
            TerminationCall::Made { terminated } => if terminated {
                shell_waited(look, elapsed, next)
            } else {
                next == ShellEnd::Gone(
                    match look {
                        ChildLook::Ended(code) => Some(code),
                        _ => None,
                    },
                )
            },
            TerminationCall::Refused(failure) => match look {
                ChildLook::Running => next == ShellEnd::Failed(failure),
                _ => shell_waited(look, elapsed, next),
            },
        },
        ShellEnd::Waiting => shell_waited(look, elapsed, next),
        _ => next == stage,
    }
}

fn wait_on_shell(look: ChildLook, elapsed: u64) -> (next: ShellEnd)
    ensures
        shell_waited(look, elapsed, next),
{
    match look {
        ChildLook::Ended(code) => ShellEnd::Gone(Some(code)),
        ChildLook::Unknown(failure) => ShellEnd::Failed(
            failure.context("Failed to check terminal shell status".to_owned()),
        ),
        ChildLook::Running => {
            if elapsed >= SHELL_PATIENCE {
                ShellEnd::Failed(
                    Failure::of("terminal shell did not exit within 3.0s".to_owned()),
                )
            } else {
                ShellEnd::Waiting
            }
        },
    }
}

/// Goes on with ending a shell. `call` is what came of telling it to end since the last step, and
/// `look` what it showed after that, `elapsed` milliseconds after it was told to.
pub fn end_shell(stage: ShellEnd, call: TerminationCall, look: ChildLook, elapsed: u64) -> (next:
    ShellEnd)
    ensures
        shell_end_effect(stage, call, look, elapsed, next),
{
    match stage {
        ShellEnd::Start => match call {
            TerminationCall::NotMade => ShellEnd::Start,
            TerminationCall::Made { terminated } => {
                if terminated {
                    return wait_on_shell(look, elapsed);
                }
                match look {
                    ChildLook::Ended(code) => ShellEnd::Gone(Some(code)),
                    _ => ShellEnd::Gone(None),
                }
            },
            TerminationCall::Refused(failure) => match look {
                ChildLook::Running => ShellEnd::Failed(failure),
                other => wait_on_shell(other, elapsed),
            },
        },
        ShellEnd::Waiting => wait_on_shell(look, elapsed),
        ended => ended,
    }
}

/// One shell terminal, beside its process and screen.
pub struct TerminalPane {
    pub session_name: String,
    pub cwd: String,
    /// Tells the shells of one session apart: a restarted one gets a new number.
    pub generation: u64,
    pub child_running: bool,
    pub status: TerminalStatus,
    pub viewport: Viewport,
    pub mouse_captured: bool,
}

/// How a terminal was brought up.
#[derive(Clone, Copy, Debug, PartialEq, Eq, Structural)]
pub enum Activation {
    Opened,
    Focused,
    Restarted,
}

/// What an input event for a shell comes to.
#[derive(Debug, PartialEq, Eq)]
pub enum TerminalInput {
    Nothing,
    Write(Vec<u8>),
    Scroll { up: bool },
    /// The shell does not run any more.
    Refused,
}

/// The bytes that an event is for a shell: encoded keys and pastes, and mouse events where its
/// program wants them.
pub open spec fn shell_bytes(
    pane: TerminalPane,
    event: Event,
    modes: ScreenModes,
    windows: bool,
) -> Option<Seq<u8>> {
    match event {
        Event::Key(key) if key.kind == KeyEventKind::Press => shell_key_bytes(
            key,
            modes.application_cursor,
            windows,
        ),
        Event::Paste(text) => Some(paste_bytes(text@, modes.bracketed_paste)),
        Event::Mouse(mouse) if modes.mouse_mode != MouseProtocolMode::Off => mouse_report(
            pane.viewport,
            pane.mouse_captured,
            mouse,
            modes.mouse_mode,
            modes.mouse_encoding,
        ),
        _ => None,
    }
}

/// Whether an event scrolls the history of a shell, and whether upwards.
pub open spec fn shell_scroll(pane: TerminalPane, event: Event, modes: ScreenModes) -> Option<bool> {
    match event {
        Event::Mouse(mouse) if modes.mouse_mode == MouseProtocolMode::Off && pane.viewport.inside(
            mouse.column,
            mouse.row,
        ) && (mouse.kind is ScrollUp || mouse.kind is ScrollDown) => Some(mouse.kind is ScrollUp),
        _ => None,
    }
}

/// A terminal after an event: only a mouse that is reported can be captured by it.
pub open spec fn after_shell_event(
    pane: TerminalPane,
    event: Event,
    modes: ScreenModes,
) -> TerminalPane {
    match event {
        Event::Mouse(mouse) if modes.mouse_mode != MouseProtocolMode::Off => TerminalPane {
            mouse_captured: captured_after(pane.viewport, pane.mouse_captured, mouse),
            ..pane
        },
        _ => pane,
    }
}

/// Whether an input is what an event comes to. Nothing is written to a shell that does not run.
pub open spec fn shell_input(
    pane: TerminalPane,
    event: Event,
    modes: ScreenModes,
    windows: bool,
    input: TerminalInput,
) -> bool {
    match shell_bytes(pane, event, modes, windows) {
        Some(bytes) => if pane.status is Running {
            input matches TerminalInput::Write(b) && b@ == bytes
        } else {
            input == TerminalInput::Refused
        },
        None => match shell_scroll(pane, event, modes) {
            Some(up) => input == (TerminalInput::Scroll { up }),
            None => input == TerminalInput::Nothing,
        },
    }
}

impl TerminalPane {
    /// The terminal of a shell that was just started.
    pub fn open(session_name: String, cwd: String, generation: u64) -> (pane: TerminalPane)
        ensures
            pane.session_name == session_name,
            pane.cwd == cwd,
            pane.generation == generation,
            pane.child_running,
            pane.status is Running,
            pane.viewport == (Viewport { x: 0, y: 0, rows: INITIAL_ROWS, cols: INITIAL_COLS }),
            !pane.mouse_captured,
    {
        TerminalPane {
            session_name,
            cwd,
            generation,
            child_running: true,
            status: TerminalStatus::Running,
            viewport: Viewport { x: 0, y: 0, rows: INITIAL_ROWS, cols: INITIAL_COLS },
            mouse_captured: false,
        }
    }

    /// A new shell took the place of the one that ended.
    pub fn restart(&mut self, generation: u64)
        ensures
            *final(self) == (TerminalPane {
                generation,
                child_running: true,
                status: TerminalStatus::Running,
                mouse_captured: false,
                ..*old(self)
            }),
    {
        self.generation = generation;
        self.child_running = true;
        self.status = TerminalStatus::Running;
        self.mouse_captured = false;
    }

    /// Whether the shell process runs, whatever became of the plumbing round it.
    pub fn is_running(&self) -> (r: bool)
        ensures
            r == self.child_running,
    {
        self.child_running
    }

    /// The shell process has ended.
    pub fn record_exit(&mut self, code: u32)
        ensures
            *final(self) == (TerminalPane {
                child_running: false,
                status: TerminalStatus::Exited(code),
                ..*old(self)
            }),
    {
        self.child_running = false;
        self.status = TerminalStatus::Exited(code);
    }

    /// Moves the terminal to a new place and size, where its process took that size: `resized` is
    /// how the process took it. A terminal whose process did not stays where it is.
    pub fn resize(
        &mut self,
        x: u16,
        y: u16,
        rows: u16,
        cols: u16,
        resized: Result<(), String>,
    ) -> (result: Result<(), String>)
        ensures
            result == resized,
            *final(self) == (TerminalPane {
                viewport: if resized is Ok {
                    pane_viewport(x, y, rows, cols)
                } else {
                    old(self).viewport
                },
                ..*old(self)
            }),
    {
        if resized.is_ok() {
            let size = pty_size(rows, cols);
            self.viewport = Viewport { x, y, rows: size.rows, cols: size.cols };
        }
        resized
    }

    fn send(&self, bytes: Vec<u8>) -> (input: TerminalInput)
        ensures
            self.status is Running ==> input == TerminalInput::Write(bytes),
            !(self.status is Running) ==> input == TerminalInput::Refused,
    {
        match self.status {
            TerminalStatus::Running => TerminalInput::Write(bytes),
            _ => TerminalInput::Refused,
        }
    }

    /// What an event comes to when the terminal has the focus: keys and pastes are encoded, mouse
    /// events are reported to the shell or scroll the history.
    pub fn handle_event(&mut self, event: Event, modes: ScreenModes, windows: bool) -> (input:
        TerminalInput)
        ensures
            *final(self) == after_shell_event(*old(self), event, modes),
            shell_input(*old(self), event, modes, windows, input),
    {
        match event {
            Event::Key(key) => {
                if key.kind == KeyEventKind::Press {
                    match encode_key(key, modes.application_cursor, windows) {
                        Some(bytes) => self.send(bytes),
                        None => TerminalInput::Nothing,
                    }
                } else {
                    TerminalInput::Nothing
                }
            },
            Event::Paste(text) => {
                let bytes = encode_paste(text.as_str(), modes.bracketed_paste);
                self.send(bytes)
            },
            Event::Mouse(mouse) => self.handle_mouse(mouse, modes),
            _ => TerminalInput::Nothing,
        }
    }

    fn handle_mouse(&mut self, mouse: MouseEvent, modes: ScreenModes) -> (input: TerminalInput)
        ensures
            *final(self) == after_shell_event(*old(self), Event::Mouse(mouse), modes),
            shell_input(*old(self), Event::Mouse(mouse), modes, false, input),
    {
        let mut captured: bool = self.mouse_captured;
        let action = route_mouse(
            self.viewport,
            &mut captured,
            mouse,
            modes.mouse_mode,
            modes.mouse_encoding,
        );
        self.mouse_captured = captured;
        match action {
            MouseAction::Nothing => TerminalInput::Nothing,
            MouseAction::Scroll { up } => TerminalInput::Scroll { up },
            MouseAction::Write(bytes) => self.send(bytes),
        }
    }
}

/// One kept terminal with the session it belongs to.
pub struct TerminalEntry {
    pub session_id: String,
    pub pane: TerminalPane,
}

/// The terminals of all sessions, and which of them is shown.
pub struct TerminalManager {
    pub entries: Vec<TerminalEntry>,
    pub active_id: Option<String>,
    pub visible: bool,
    pub focused: bool,
    pub next_generation: u64,
}

/// The position of the terminal of a session, counted from `from`.
pub open spec fn terminal_position_from(
    entries: Seq<TerminalEntry>,
    session_id: Seq<char>,
    from: int,
) -> Option<int>
    decreases entries.len() - from,
{
    if from >= entries.len() {
        None
    } else if entries[from].session_id@ == session_id {
        Some(from)
    } else {
        terminal_position_from(entries, session_id, from + 1)
    }
}

/// The position of the terminal of a session.
pub open spec fn terminal_position(entries: Seq<TerminalEntry>, session_id: Seq<char>) -> Option<
    int,
> {
    terminal_position_from(entries, session_id, 0)
}

proof fn lemma_terminal_position(entries: Seq<TerminalEntry>, session_id: Seq<char>, from: int)
    requires
        0 <= from,
    ensures
        match terminal_position_from(entries, session_id, from) {
            Some(i) => from <= i < entries.len() && entries[i].session_id@ == session_id,
            None => forall|j: int|
                from <= j < entries.len() ==> (#[trigger] entries[j]).session_id@ != session_id,
        },
    decreases entries.len() - from,
{
    if from < entries.len() && entries[from].session_id@ != session_id {
        lemma_terminal_position(entries, session_id, from + 1);
    }
}

/// How bringing up the terminal of a session goes: a new one is opened, a stopped one restarted, and
/// one that runs is only focused.
pub open spec fn needed_activation(entries: Seq<TerminalEntry>, session_id: Seq<char>) -> Activation {
    match terminal_position(entries, session_id) {
        Some(i) => if entries[i].pane.child_running {
            Activation::Focused
        } else {
            Activation::Restarted
        },
        None => Activation::Opened,
    }
}

/// The number after the last one given out, as far as numbers go.
pub open spec fn next_number(n: u64) -> u64 {
    if n == u64::MAX {
        n
    } else {
        (n + 1) as u64
    }
}

/// Whether a terminal comes up: its shell runs already, or one was started.
pub open spec fn comes_up(
    manager: TerminalManager,
    session_id: Seq<char>,
    shell: Result<(), String>,
) -> bool {
    needed_activation(manager.entries@, session_id) == Activation::Focused || shell is Ok
}

/// Whether the terminals are others after bringing up that of a session. A terminal that is there
/// takes the session's new name and directory in any case. A number is used up whenever a shell was
/// to be started, and only a terminal that came up is shown and focused.
pub open spec fn activated(
    before: TerminalManager,
    session_id: Seq<char>,
    session_name: String,
    cwd: String,
    shell: Result<(), String>,
    after: TerminalManager,
) -> bool {
    let needed = needed_activation(before.entries@, session_id);
    let generation = if needed == Activation::Focused {
        before.next_generation
    } else {
        next_number(before.next_generation)
    };
    let up = comes_up(before, session_id, shell);
    &&& after.next_generation == generation
    &&& if up {
        names(after.active_id, session_id) && after.visible && after.focused
    } else {
        after.active_id == before.active_id && after.visible == before.visible && after.focused
            == before.focused
    }
    &&& match terminal_position(before.entries@, session_id) {
        Some(i) => {
            let named = TerminalPane { session_name, cwd, ..before.entries@[i].pane };
            after.entries@ == before.entries@.update(
                i,
                TerminalEntry {
                    session_id: before.entries@[i].session_id,
                    pane: if needed == Activation::Restarted && up {
                        TerminalPane {
                            generation,
                            child_running: true,
                            status: TerminalStatus::Running,
                            mouse_captured: false,
                            ..named
                        }
                    } else {
                        named
                    },
                },
            )
        },
        None => if up {
            &&& after.entries@.len() == before.entries@.len() + 1
            &&& after.entries@.drop_last() == before.entries@
            &&& after.entries@.last().session_id@ == session_id
            &&& after.entries@.last().pane == (TerminalPane {
                session_name,
                cwd,
                generation,
                child_running: true,
                status: TerminalStatus::Running,
                viewport: Viewport { x: 0, y: 0, rows: INITIAL_ROWS, cols: INITIAL_COLS },
                mouse_captured: false,
            })
        } else {
            after.entries@ == before.entries@
        },
    }
}

/// A terminal that came up is the active one, and shown.
pub proof fn lemma_activated_is_shown(
    before: TerminalManager,
    session_id: Seq<char>,
    session_name: String,
    cwd: String,
    shell: Result<(), String>,
    after: TerminalManager,
)
    requires
        activated(before, session_id, session_name, cwd, shell, after),
        comes_up(before, session_id, shell),
    ensures
        after.shown(),
{
    lemma_terminal_position(before.entries@, session_id, 0);
    lemma_terminal_position(after.entries@, session_id, 0);
    match terminal_position(before.entries@, session_id) {
        Some(i) => {
            assert(after.entries@[i].session_id@ == session_id);
        },
        None => {
            assert(after.entries@[after.entries@.len() - 1].session_id@ == session_id);
        },
    }
}

/// Whether an optional text is a given one.
pub open spec fn names(id: Option<String>, session_id: Seq<char>) -> bool {
    id matches Some(s) && s@ == session_id
}

impl TerminalManager {
    /// No two terminals belong to one session.
    pub open spec fn wf(&self) -> bool {
        forall|i: int, j: int|
            0 <= i < j < self.entries@.len() ==> (#[trigger] self.entries@[i]).session_id@ != (
            #[trigger] self.entries@[j]).session_id@
    }

    /// No terminal at all.
    pub fn new() -> (manager: Self)
        ensures
            manager.wf(),
            manager.entries@.len() == 0,
            manager.active_id is None,
            !manager.visible,
            !manager.focused,
            manager.next_generation == 0,
    {
        TerminalManager {
            entries: Vec::new(),
            active_id: None,
            visible: false,
            focused: false,
            next_generation: 0,
        }
    }

    fn allocate_generation(&mut self) -> (generation: u64)
        ensures
            generation == next_number(old(self).next_generation),
            *final(self) == (TerminalManager { next_generation: generation, ..*old(self) }),
    {
        self.next_generation = self.next_generation.saturating_add(1);
        self.next_generation
    }

    fn position(&self, session_id: &str) -> (at: Option<usize>)
        ensures
            match at {
                Some(i) => i < self.entries@.len() && terminal_position(
                    self.entries@,
                    session_id@,
                ) == Some(i as int),
                None => terminal_position(self.entries@, session_id@) is None,
            },
    {
        let mut i: usize = 0;
        while i < self.entries.len()
            invariant
                i <= self.entries@.len(),
                terminal_position(self.entries@, session_id@) == terminal_position_from(
                    self.entries@,
                    session_id@,
                    i as int,
                ),
            decreases self.entries@.len() - i,
        {
            if same_text(self.entries[i].session_id.as_str(), session_id) {
                return Some(i);
            }
            i = i + 1;
        }
        None
    }

    /// How bringing up the terminal of a session would go; opening and restarting need a shell.
    pub fn activation(&self, session_id: &str) -> (activation: Activation)
        ensures
            activation == needed_activation(self.entries@, session_id@),
    {
        match self.position(session_id) {
            Some(i) => {
                if self.entries[i].pane.is_running() {
                    Activation::Focused
                } else {
                    Activation::Restarted
                }
            },
            None => Activation::Opened,
        }
    }

    /// Brings up the terminal of a session. `shell` says whether the shell that opening or
    /// restarting needs was started; it does not count where the terminal is only focused.
    pub fn activate(
        &mut self,
        session_id: String,
        session_name: String,
        cwd: String,
        shell: Result<(), String>,
    ) -> (r: Result<Activation, String>)
        requires
            old(self).wf(),
        ensures
            final(self).wf(),
            activated(*old(self), session_id@, session_name, cwd, shell, *final(self)),
            match r {
                Ok(activation) => activation == needed_activation(
                    old(self).entries@,
                    session_id@,
                ) && comes_up(*old(self), session_id@, shell),
                Err(error) => !comes_up(*old(self), session_id@, shell) && shell == Err::<
                    (),
                    String,
                >(error),
            },
    {
        let ghost before = self.entries@;
        let activation: Activation;
        match self.position(session_id.as_str()) {
            Some(i) => {
                if self.entries[i].pane.is_running() {
                    let entry = &mut self.entries[i];
                    entry.pane.session_name = session_name;
                    entry.pane.cwd = cwd;
                    assert(self.entries@ =~= before.update(
                        i as int,
                        TerminalEntry {
                            session_id: before[i as int].session_id,
                            pane: TerminalPane { session_name, cwd, ..before[i as int].pane },
                        },
                    ));
                    activation = Activation::Focused;
                } else {
                    let generation = self.allocate_generation();
                    let entry = &mut self.entries[i];
                    entry.pane.session_name = session_name;
                    entry.pane.cwd = cwd;
                    let ghost named = TerminalPane { session_name, cwd, ..before[i as int].pane };
                    if let Err(error) = shell {
                        assert(self.entries@ =~= before.update(
                            i as int,
                            TerminalEntry { session_id: before[i as int].session_id, pane: named },
                        ));
                        return Err(error);
                    }
                    let entry = &mut self.entries[i];
                    entry.pane.restart(generation);
                    assert(self.entries@ =~= before.update(
                        i as int,
                        TerminalEntry {
                            session_id: before[i as int].session_id,
                            pane: TerminalPane {
                                generation,
                                child_running: true,
                                status: TerminalStatus::Running,
                                mouse_captured: false,
                                ..named
                            },
                        },
                    ));
                    activation = Activation::Restarted;
                }
            },
            None => {
                let generation = self.allocate_generation();
                if let Err(error) = shell {
                    return Err(error);
                }
                proof {
                    lemma_terminal_position(before, session_id@, 0);
                }
                let pane = TerminalPane::open(session_name, cwd, generation);
                self.entries.push(TerminalEntry { session_id: session_id.clone(), pane });
                assert(self.entries@.drop_last() == before);
                activation = Activation::Opened;
            },
        }
        self.active_id = Some(session_id);
        self.visible = true;
        self.focused = true;
        Ok(activation)
    }

    /// The position of the active terminal.
    pub open spec fn active_position(&self) -> Option<int> {
        match self.active_id {
            Some(id) => terminal_position(self.entries@, id@),
            None => None,
        }
    }

    /// The active terminal is one of those that are kept.
    pub proof fn lemma_active_position(&self)
        ensures
            self.active_position() matches Some(i) ==> 0 <= i < self.entries@.len(),
    {
        if let Some(id) = self.active_id {
            lemma_terminal_position(self.entries@, id@, 0);
        }
    }

    /// The active terminal.
    pub fn active(&self) -> (pane: Option<&TerminalPane>)
        ensures
            match self.active_position() {
                Some(i) => pane == Some(&self.entries@[i].pane),
                None => pane is None,
            },
    {
        match &self.active_id {
            Some(id) => match self.position(id.as_str()) {
                Some(i) => Some(&self.entries[i].pane),
                None => None,
            },
            None => None,
        }
    }

    /// The active terminal, for changing it.
    pub fn active_mut(&mut self) -> (pane: Option<&mut TerminalPane>)
        ensures
            match old(self).active_position() {
                Some(i) => {
                    &&& pane is Some
                    &&& *pane->0 == old(self).entries@[i].pane
                    &&& final(self).entries@ == old(self).entries@.update(
                        i,
                        TerminalEntry {
                            session_id: old(self).entries@[i].session_id,
                            pane: *final(pane->0),
                        },
                    )
                    &&& *final(self) == (TerminalManager {
                        entries: final(self).entries,
                        ..*old(self)
                    })
                },
                None => pane is None && *final(self) == *old(self),
            },
    {
        let at = match &self.active_id {
            Some(id) => self.position(id.as_str()),
            None => None,
        };
        match at {
            Some(i) => {
                let entry = &mut self.entries[i];
                Some(&mut entry.pane)
            },
            None => None,
        }
    }

    /// The session whose terminal is active.
    pub fn active_session_id(&self) -> (id: Option<&str>)
        ensures
            match self.active_id {
                Some(active) => id is Some && id->0@ == active@,
                None => id is None,
            },
    {
        match &self.active_id {
            Some(id) => Some(id.as_str()),
            None => None,
        }
    }

    /// The sessions whose shell has ended.
    pub fn stopped_session_ids(&self) -> (ids: Vec<String>)
        ensures
            ids@ == self.entries@.filter(|e: TerminalEntry| !e.pane.child_running).map_values(
                |e: TerminalEntry| e.session_id,
            ),
    {
        let ghost stopped = |e: TerminalEntry| !e.pane.child_running;
        let ghost id_of = |e: TerminalEntry| e.session_id;
        let mut ids: Vec<String> = Vec::new();
        let mut i: usize = 0;
        proof {
            reveal(Seq::filter);
            assert(self.entries@.take(0).filter(stopped).map_values(id_of) =~= ids@);
        }
        while i < self.entries.len()
            invariant
                i <= self.entries@.len(),
                stopped == (|e: TerminalEntry| !e.pane.child_running),
                id_of == (|e: TerminalEntry| e.session_id),
                ids@ == self.entries@.take(i as int).filter(stopped).map_values(id_of),
            decreases self.entries@.len() - i,
        {
            let ghost so_far = self.entries@.take(i as int).filter(stopped);
            proof {
                reveal(Seq::filter);
                assert(self.entries@.take(i + 1).drop_last() == self.entries@.take(i as int));
            }
            if !self.entries[i].pane.is_running() {
                ids.push(self.entries[i].session_id.clone());
                assert(so_far.push(self.entries@[i as int]).map_values(id_of) =~= so_far.map_values(
                    id_of,
                ).push(self.entries@[i as int].session_id));
            }
            i = i + 1;
        }
        assert(self.entries@.take(i as int) == self.entries@);
        assert(ids@ == self.entries@.filter(stopped).map_values(id_of));
        ids
    }

    /// The sessions whose shell runs: id, directory, name and generation of each.
    pub fn running_sessions(&self) -> (sessions: Vec<(String, String, String, u64)>)
        ensures
            sessions@ == self.entries@.filter(|e: TerminalEntry| e.pane.child_running).map_values(
                |e: TerminalEntry| (e.session_id, e.pane.cwd, e.pane.session_name, e.pane.generation),
            ),
    {
        let ghost running = |e: TerminalEntry| e.pane.child_running;
        let ghost facts = |e: TerminalEntry|
            (e.session_id, e.pane.cwd, e.pane.session_name, e.pane.generation);
        let mut sessions: Vec<(String, String, String, u64)> = Vec::new();
        let mut i: usize = 0;
        proof {
            reveal(Seq::filter);
            assert(self.entries@.take(0).filter(running).map_values(facts) =~= sessions@);
        }
        while i < self.entries.len()
            invariant
                i <= self.entries@.len(),
                running == (|e: TerminalEntry| e.pane.child_running),
                facts == (|e: TerminalEntry|
                    (e.session_id, e.pane.cwd, e.pane.session_name, e.pane.generation)),
                sessions@ == self.entries@.take(i as int).filter(running).map_values(facts),
            decreases self.entries@.len() - i,
        {
            let ghost so_far = self.entries@.take(i as int).filter(running);
            proof {
                reveal(Seq::filter);
                assert(self.entries@.take(i + 1).drop_last() == self.entries@.take(i as int));
            }
            let entry = &self.entries[i];
            if entry.pane.is_running() {
                sessions.push(
                    (
                        entry.session_id.clone(),
                        entry.pane.cwd.clone(),
                        entry.pane.session_name.clone(),
                        entry.pane.generation,
                    ),
                );
                assert(so_far.push(*entry).map_values(facts) =~= so_far.map_values(facts).push(
                    facts(*entry),
                ));
            }
            i = i + 1;
        }
        assert(self.entries@.take(i as int) == self.entries@);
        assert(sessions@ == self.entries@.filter(running).map_values(facts));
        sessions
    }

    /// Whether a terminal is shown.
    pub open spec fn shown(&self) -> bool {
        self.visible && self.active_position() is Some
    }

    /// Whether a terminal is shown.
    pub fn is_visible(&self) -> (r: bool)
        ensures
            r == self.shown(),
    {
        self.visible && self.active().is_some()
    }

    /// Takes the terminal off the screen; its shell goes on.
    pub fn conceal(&mut self)
        ensures
            *final(self) == (TerminalManager { visible: false, focused: false, ..*old(self) }),
    {
        self.visible = false;
        self.focused = false;
    }

    /// Takes the focus off the terminal.
    pub fn unfocus(&mut self)
        ensures
            *final(self) == (TerminalManager { focused: false, ..*old(self) }),
    {
        self.focused = false;
    }

    /// Focuses the terminal, if one is shown.
    pub fn focus(&mut self)
        ensures
            *final(self) == (TerminalManager {
                focused: old(self).focused || old(self).shown(),
                ..*old(self)
            }),
    {
        if self.is_visible() {
            self.focused = true;
        }
    }

    /// Forgets the terminal of a session. `ended` says whether its shell could be ended; one that
    /// could not stays.
    pub fn remove(&mut self, session_id: &str, ended: Result<(), String>) -> (r: Result<(), String>)
        requires
            old(self).wf(),
        ensures
            final(self).wf(),
            match (terminal_position(old(self).entries@, session_id@), ended) {
                (Some(_), Err(error)) => r == Err::<(), String>(error) && *final(self) == *old(self),
                (at, _) => {
                    &&& r is Ok
                    &&& final(self).entries@ == (match at {
                        Some(i) => old(self).entries@.remove(i),
                        None => old(self).entries@,
                    })
                    &&& *final(self) == (if names(old(self).active_id, session_id@) {
                        TerminalManager {
                            entries: final(self).entries,
                            active_id: None,
                            visible: false,
                            focused: false,
                            ..*old(self)
                        }
                    } else {
                        TerminalManager { entries: final(self).entries, ..*old(self) }
                    })
                },
            },
    {
        if let Some(i) = self.position(session_id) {
            if let Err(error) = ended {
                return Err(error);
            }
            self.entries.remove(i);
        }
        let active = match &self.active_id {
            Some(id) => same_text(id.as_str(), session_id),
            None => false,
        };
        if active {
            self.active_id = None;
            self.visible = false;
            self.focused = false;
        }
        Ok(())
    }

    /// Forgets every terminal. `failures` names the shells that could not be ended, with the reason;
    /// where there are any, nothing is forgotten.
    pub fn shutdown(&mut self, failures: &Vec<(String, String)>) -> (r: Result<(), String>)
        ensures
            match r {
                Ok(_) => {
                    &&& failures@.len() == 0
                    &&& final(self).entries@.len() == 0
                    &&& *final(self) == (TerminalManager {
                        entries: final(self).entries,
                        active_id: None,
                        visible: false,
                        focused: false,
                        ..*old(self)
                    })
                },
                Err(message) => {
                    &&& failures@.len() > 0
                    &&& message@ == "Could not end all terminal shells: "@ + listed_failures(
                        failures@,
                    )
                    &&& *final(self) == *old(self)
                },
            },
    {
        if failures.len() > 0 {
            let mut message = "Could not end all terminal shells: ".to_owned();
            let ghost head = message@;
            let mut i: usize = 0;
            assert(message@ == head + listed_failures(failures@.take(0)));
            while i < failures.len()
                invariant
                    i <= failures@.len(),
                    message@ == head + listed_failures(failures@.take(i as int)),
                decreases failures@.len() - i,
            {
                let ghost before = message@;
                assert(failures@.take(i + 1).drop_last() == failures@.take(i as int));
                if i > 0 {
                    message.append("; ");
                }
                message.append("'");
                message.append(failures[i].0.as_str());
                message.append("': ");
                message.append(failures[i].1.as_str());
                assert(message@ == head + listed_failures(failures@.take(i + 1)));
                i = i + 1;
            }
            assert(failures@.take(i as int) == failures@);
            return Err(message);
        }
        self.entries.clear();
        self.active_id = None;
        self.visible = false;
        self.focused = false;
        Ok(())
    }
}

/// Failures as they are listed: `'session': reason`, separated by semicolons.
pub open spec fn listed_failures(failures: Seq<(String, String)>) -> Seq<char>
    decreases failures.len(),
{
    if failures.len() == 0 {
        Seq::empty()
    } else {
        let last = failures.last();
        listed_failures(failures.drop_last()) + (if failures.len() > 1 {
            "; "@
        } else {
            Seq::empty()
        }) + "'"@ + last.0@ + "': "@ + last.1@
    }
}

/// Bringing up a terminal again after it was hidden only focuses it while its shell runs.
pub proof fn law_hidden_terminal_keeps_its_shell(
    before: TerminalManager,
    session_id: Seq<char>,
    at: int,
)
    requires
        before.wf(),
        terminal_position(before.entries@, session_id) == Some(at),
        before.entries@[at].pane.child_running,
    ensures
        needed_activation(
            (TerminalManager { visible: false, focused: false, ..before }).entries@,
            session_id,
        ) == Activation::Focused,
{
}

/// The number that programs read the held modifiers from: 1 for Shift, 2 for Alt, 4 for Control.
pub open spec fn held(m: KeyModifiers) -> int {
    (if m.shift {
        1int
    } else {
        0
    }) + (if m.escaping() {
        2int
    } else {
        0
    }) + (if m.control {
        4int
    } else {
        0
    })
}

proof fn lemma_shell_cursor_read(letter: u8, m: KeyModifiers, application: bool)
    requires
        crate::mux::keys::key_of_letter(letter) is Some,
    ensures
        crate::mux::keys::key_read(shell_cursor(letter, m, application)) == Some(
            (crate::mux::keys::key_of_letter(letter)->0, held(m)),
        ),
{
    let bytes = shell_cursor(letter, m, application);
    let p = shell_modifier(m);
    if p > 1 {
        assert(decimal_bytes(p as nat) =~= seq![(48 + p) as u8]);
        assert(bytes =~= seq![0x1bu8, 0x5b, 0x31, 0x3b, (48 + p) as u8, letter]);
    }
}

proof fn lemma_shell_tilde_read(number: u8, m: KeyModifiers)
    requires
        1 <= number < 100,
        crate::mux::keys::key_of_number(number as int) is Some,
    ensures
        crate::mux::keys::key_read(shell_tilde(number, m)) == Some(
            (crate::mux::keys::key_of_number(number as int)->0, held(m)),
        ),
{
    let bytes = shell_tilde(number, m);
    let p = shell_modifier(m);
    crate::mux::keys::lemma_tilde_bytes(
        number,
        if p > 1 {
            Some(p as u8)
        } else {
            None
        },
    );
    if p > 1 {
        if number < 10 {
            assert(bytes =~= seq![27u8, 91, (48 + number) as u8, 59, (48 + p) as u8, 126]);
        } else {
            assert(bytes =~= seq![
                27u8,
                91,
                (48 + number / 10) as u8,
                (48 + number % 10) as u8,
                59,
                (48 + p) as u8,
                126,
            ]);
        }
    } else if number < 10 {
        assert(bytes =~= seq![27u8, 91, (48 + number) as u8, 126]);
    } else {
        assert(bytes =~= seq![27u8, 91, (48 + number / 10) as u8, (48 + number % 10) as u8, 126]);
    }
}

/// A shell reads the key back that was pressed, and the modifiers that were held, in either cursor mode.
pub proof fn law_shell_keys_read_back(key: KeyEvent, application: bool, windows: bool)
    requires
        !(key.code is Char),
        !(key.code is Enter && windows),
        shell_key_bytes(key, application, windows) is Some,
        crate::mux::keys::carries_modifiers(key.code) || !key.modifiers.escaping(),
    ensures
        crate::mux::keys::key_read(shell_key_bytes(key, application, windows)->0) == Some(
            (
                key.code,
                if crate::mux::keys::carries_modifiers(key.code) {
                    held(key.modifiers)
                } else {
                    0
                },
            ),
        ),
{
    let m = key.modifiers;
    lemma_shell_cursor_read(65, m, application);
    lemma_shell_cursor_read(66, m, application);
    lemma_shell_cursor_read(67, m, application);
    lemma_shell_cursor_read(68, m, application);
    lemma_shell_cursor_read(70, m, application);
    lemma_shell_cursor_read(72, m, application);
    lemma_shell_tilde_read(2, m);
    lemma_shell_tilde_read(3, m);
    lemma_shell_tilde_read(5, m);
    lemma_shell_tilde_read(6, m);
    if let KeyCode::F(n) = key.code {
        if 1 <= n <= 4 {
            lemma_shell_cursor_read((0x4f + n) as u8, m, true);
        } else if n == 5 {
            lemma_shell_tilde_read(15, m);
        } else if 6 <= n <= 10 {
            lemma_shell_tilde_read((11 + n) as u8, m);
        } else {
            lemma_shell_tilde_read((12 + n) as u8, m);
        }
    }
}

/// A character goes to the shell as it is, one with the control key as its control code in both cases,
/// and one with the alt key with an escape in front. Enter ends the line as the system does.
pub proof fn law_shell_characters_are_sent(key: KeyEvent, c: char, application: bool, windows: bool)
    ensures
        key.code == KeyCode::Char(c) && !key.modifiers.control && !key.modifiers.escaping()
            ==> shell_key_bytes(key, application, windows) == Some(char_utf8(c)),
        key.code == KeyCode::Char(c) && key.modifiers.control && !key.modifiers.escaping() && 'a' <= c
            && c <= 'z' ==> shell_key_bytes(key, application, windows) == Some(
            seq![(c as u32 - 'a' as u32 + 1) as u8],
        ),
        key.code == KeyCode::Char(c) && key.modifiers.control && !key.modifiers.escaping() && 'A' <= c
            && c <= 'Z' ==> shell_key_bytes(key, application, windows) == Some(
            seq![(c as u32 - 'A' as u32 + 1) as u8],
        ),
        key.code == KeyCode::Enter && !key.modifiers.escaping() ==> shell_key_bytes(
            key,
            application,
            windows,
        ) == Some(
            if windows {
                seq![13u8, 10]
            } else {
                seq![13u8]
            },
        ),
        key.modifiers.escaping() && (key.code is Char || key.code is Enter || key.code is Backspace
            || key.code is Tab || key.code is Esc) ==> match (
            shell_key_bytes(key, application, windows),
            shell_key_bytes(
                KeyEvent {
                    modifiers: KeyModifiers { control: key.modifiers.control, ..KeyModifiers::spec_none() },
                    ..key
                },
                application,
                windows,
            ),
        ) {
            (Some(bytes), Some(plain)) => bytes == seq![27u8] + plain,
            (None, None) => true,
            _ => false,
        },
{
}

/// The private answer on the cursor is the plain one with a question mark in it. The cursor is counted
/// from one, the row before the column.
pub proof fn law_cursor_reports(row: u16, column: u16)
    ensures
        cursor_report(row, column) == seq![27u8, 91] + decimal_bytes((row + 1) as nat) + seq![59u8]
            + decimal_bytes((column + 1) as nat) + seq![82u8],
        private_cursor_report(row, column) == seq![27u8, 91, 63] + cursor_report(row, column).skip(2),
{
    assert(private_cursor_report(row, column) =~= seq![27u8, 91, 63] + cursor_report(row, column).skip(
        2,
    ));
    assert(cursor_report(row, column) =~= seq![27u8, 91] + decimal_bytes((row + 1) as nat) + seq![59u8]
        + decimal_bytes((column + 1) as nat) + seq![82u8]);
}

/// A terminal that was brought up is the one that is shown and has the keys, under the name and in the
/// directory that were asked for; a new shell has a number of its own; and no other terminal changes.
pub proof fn law_an_activated_terminal_is_shown(
    before: TerminalManager,
    session_id: Seq<char>,
    session_name: String,
    cwd: String,
    shell: Result<(), String>,
    after: TerminalManager,
    other: int,
)
    requires
        before.wf(),
        activated(before, session_id, session_name, cwd, shell, after),
        0 <= other < before.entries@.len(),
        before.entries@[other].session_id@ != session_id,
    ensures
        after.entries@[other] == before.entries@[other],
        shell is Ok ==> {
            &&& after.visible && after.focused
            &&& after.active_id matches Some(id) && id@ == session_id
            &&& after.active_position() matches Some(i) && after.entries@[i].pane.session_name
                == session_name && after.entries@[i].pane.cwd == cwd
                && after.entries@[i].pane.child_running
        },
        after.next_generation != before.next_generation ==> !(
        terminal_position(before.entries@, session_id) matches Some(i)
            && before.entries@[i].pane.child_running),
{
    lemma_terminal_place(before.entries@, session_id, 0);
    lemma_terminal_place(after.entries@, session_id, 0);
    let entries = after.entries@;
    match terminal_position(before.entries@, session_id) {
        Some(i) => {
            assert(entries[i].session_id@ == session_id);
            match terminal_position(entries, session_id) {
                Some(j) => {
                    if j < i {
                        assert(entries[j].session_id@ == before.entries@[j].session_id@);
                    }
                },
                None => {},
            }
        },
        None => {
            if shell is Ok {
                let last = entries.len() - 1;
                assert(entries[last].session_id@ == session_id);
                assert forall|j: int| 0 <= j < last implies (#[trigger] entries[j]).session_id@
                    != session_id by {
                    assert(entries.drop_last()[j] == before.entries@[j]);
                }
                assert(entries.drop_last()[other] == before.entries@[other]);
            }
        },
    }
}

proof fn lemma_terminal_place(entries: Seq<TerminalEntry>, session_id: Seq<char>, from: int)
    requires
        0 <= from,
    ensures
        match terminal_position_from(entries, session_id, from) {
            Some(i) => from <= i < entries.len() && entries[i].session_id@ == session_id && forall|
                j: int,
            |
                from <= j < i ==> (#[trigger] entries[j]).session_id@ != session_id,
            None => forall|j: int|
                from <= j < entries.len() ==> (#[trigger] entries[j]).session_id@ != session_id,
        },
    decreases entries.len() - from,
{
    if from < entries.len() && entries[from].session_id@ != session_id {
        lemma_terminal_place(entries, session_id, from + 1);
    }
}

/// A shell that is asked to end is gone with the code that it left, and is waited for exactly while it
/// runs and three seconds are not over.
pub proof fn law_the_end_of_a_shell_is_waited_for(
    call: TerminationCall,
    look: ChildLook,
    elapsed: u64,
    next: ShellEnd,
)
    requires
        shell_end_effect(ShellEnd::Waiting, call, look, elapsed, next),
    ensures
        next == ShellEnd::Waiting <==> look is Running && elapsed < 3000,
        look matches ChildLook::Ended(code) ==> next == ShellEnd::Gone(Some(code)),
        next is Gone ==> look is Ended,
{
}

/// What a terminal answers when it is asked, and that it answers nothing else: that it is there, where
/// its cursor stands, asked in either way, and what it is.
pub proof fn law_terminals_answer_what_they_know(query: TerminalQuery, screen: ScreenFacts)
    ensures
        terminal_reply(query, screen) is Some <==> query.second_intermediate is None && ((
        query.first_intermediate is None && query.final_byte == 'n' && (query.params@.len() == 1 && (
        query.params@[0]@ == seq![5u16] || query.params@[0]@ == seq![6u16]))) || (
        query.first_intermediate == Some(63u8) && query.final_byte == 'n' && query.params@.len() == 1
            && query.params@[0]@ == seq![6u16]) || (query.first_intermediate is None && query.final_byte
            == 'c' && (query.params@.len() == 0 || (query.params@.len() == 1 && query.params@[0]@ == seq![
            0u16,
        ])))),
        query.second_intermediate is None && query.first_intermediate is None && query.final_byte == 'n'
            && query.params@.len() == 1 && query.params@[0]@ == seq![6u16] ==> terminal_reply(
            query,
            screen,
        ) == Some(cursor_report(screen.cursor_row, screen.cursor_column)),
{
    assert(seq![5u16][0] != seq![6u16][0]);
}

/// Input is written only to a shell that runs, and refused by one that does not; the wheel scrolls where
/// no program asked for the mouse.
pub proof fn law_only_running_shells_take_input(
    pane: TerminalPane,
    event: Event,
    modes: ScreenModes,
    windows: bool,
    input: TerminalInput,
)
    requires
        shell_input(pane, event, modes, windows, input),
    ensures
        input is Write ==> pane.status is Running,
        input == TerminalInput::Refused ==> !(pane.status is Running),
        event matches Event::Paste(text) ==> pane.status is Running ==> input is Write
            && input->Write_0@ == paste_bytes(text@, modes.bracketed_paste),
        input matches TerminalInput::Scroll { up } ==> modes.mouse_mode == MouseProtocolMode::Off && (
        event matches Event::Mouse(mouse) && (up <==> mouse.kind is ScrollUp)),
{
}

} // verus!
