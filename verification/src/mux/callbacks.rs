//! Replies the terminal emulator owes a child process, and the signals it collects from it.

use crate::host_terminal::{joined, progress_sequence, progress_state, report_start, reported_state};
use crate::host_terminal::ProgressState;
use crate::mux::keys::{decimal_bytes, push_decimal};
use crate::strings::{lossy_utf8, text_of_bytes};
use vstd::prelude::*;

verus! {

/// What a child announced in one chunk of output.
#[derive(Clone, Debug, PartialEq, Eq)]
pub struct PaneSignals {
    pub title: Option<String>,
    pub events: Vec<PaneSignalEvent>,
}

/// One announcement, in the order in which the child made them.
#[derive(Clone, Copy, Debug, PartialEq, Eq, Structural)]
pub enum PaneSignalEvent {
    Bell,
    Progress(ProgressState),
}

impl Default for PaneSignals {
    fn default() -> (signals: Self)
        ensures
            signals.title is None,
            signals.events@.len() == 0,
    {
        PaneSignals { title: None, events: Vec::new() }
    }
}

/// What the emulator must do for the child or the outer terminal.
#[derive(Clone, Debug, PartialEq, Eq)]
pub enum CallbackAction {
    /// Bytes to write back to the child.
    Reply(Vec<u8>),
    /// Bytes to pass on to the outer terminal.
    Host(Vec<u8>),
}

/// The screen facts that device queries ask for. The cursor is zero-based.
#[derive(Clone, Copy, Debug, PartialEq, Eq, Structural)]
pub struct ScreenFacts {
    pub cursor_row: u16,
    pub cursor_column: u16,
    pub rows: u16,
    pub columns: u16,
}

/// The part of a control sequence that decides how it is answered: its final character, its
/// intermediate byte, and its first parameter.
#[derive(Clone, Copy, Debug, PartialEq, Eq, Structural)]
pub struct Query {
    pub final_byte: char,
    pub intermediate: Option<u8>,
    pub first: Option<u16>,
}

/// The emulator state of one pane beside its screen.
///
/// The screen model never answers device queries, and a pseudo-terminal may block at startup until
/// its cursor query is answered, so these replies are not optional.
pub struct PaneCallbacks {
    pub pane_id: u64,
    pub title: Option<String>,
    pub signals: Vec<PaneSignalEvent>,
    pub terminal_light_mode: Option<bool>,
    pub theme_updates_requested: bool,
}

/// The report of the nested terminal's appearance: `CSI ? 997 ; 1 n` dark, `; 2 n` light.
pub open spec fn theme_report_bytes(light: bool) -> Seq<u8> {
    seq![
        0x1bu8,
        0x5b,
        0x3f,
        0x39,
        0x39,
        0x37,
        0x3b,
        if light {
            0x32u8
        } else {
            0x31u8
        },
        0x6e,
    ]
}

/// `CSI row ; column R`, one-based.
pub open spec fn cursor_report(row: u16, column: u16) -> Seq<u8> {
    seq![0x1bu8, 0x5b] + decimal_bytes((row + 1) as nat) + seq![0x3bu8] + decimal_bytes(
        (column + 1) as nat,
    ) + seq![0x52u8]
}

/// `CSI 8 ; rows ; columns t`.
pub open spec fn size_report(rows: u16, columns: u16) -> Seq<u8> {
    seq![0x1bu8, 0x5b, 0x38, 0x3b] + decimal_bytes(rows as nat) + seq![0x3bu8] + decimal_bytes(
        columns as nat,
    ) + seq![0x74u8]
}

/// The replies that every emulated terminal gives: device status, cursor position, device
/// attributes (a VT220 with 132 columns and selective erase, then xterm), and text area size.
pub open spec fn device_reply(query: Query, screen: ScreenFacts) -> Option<Seq<u8>> {
    match (query.final_byte, query.intermediate, query.first) {
        ('n', None, Some(5)) => Some(seq![0x1bu8, 0x5b, 0x30, 0x6e]),
        ('n', None, Some(6)) => Some(cursor_report(screen.cursor_row, screen.cursor_column)),
        ('c', None, _) => Some(
            seq![0x1bu8, 0x5b, 0x3f, 0x36, 0x32, 0x3b, 0x31, 0x3b, 0x36, 0x63],
        ),
        ('c', Some(0x3e), _) => Some(
            seq![0x1bu8, 0x5b, 0x3e, 0x30, 0x3b, 0x31, 0x30, 0x3b, 0x31, 0x63],
        ),
        ('t', None, Some(18)) => Some(size_report(screen.rows, screen.columns)),
        _ => None,
    }
}

/// The reply of a pane: the device replies, and the appearance of the nested terminal where it has
/// one of its own.
pub open spec fn pane_reply(query: Query, screen: ScreenFacts, light: Option<bool>) -> Option<
    Seq<u8>,
> {
    if query.final_byte == 'n' && query.intermediate == Some(0x3fu8) && query.first == Some(
        996u16,
    ) {
        match light {
            Some(l) => Some(theme_report_bytes(l)),
            None => None,
        }
    } else {
        device_reply(query, screen)
    }
}

/// Whether appearance reports are subscribed to after a control sequence.
pub open spec fn theme_subscription(query: Query, before: bool) -> bool {
    if query.intermediate == Some(0x3fu8) && query.first == Some(2031u16) {
        if query.final_byte == 'h' {
            true
        } else if query.final_byte == 'l' {
            false
        } else {
            before
        }
    } else {
        before
    }
}

/// The clipboard request passed on to the outer terminal: `OSC 52 ; selector ; data ST`.
pub open spec fn clipboard_bytes(selector: Seq<u8>, data: Seq<u8>) -> Seq<u8> {
    seq![0x1bu8, 0x5d, 0x35, 0x32, 0x3b] + selector + seq![0x3bu8] + data + seq![0x1bu8, 0x5c]
}

/// The report of the nested terminal's appearance.
fn theme_report(light_theme: bool) -> (bytes: Vec<u8>)
    ensures
        bytes@ == theme_report_bytes(light_theme),
{
    let digit: u8 = if light_theme {
        0x32
    } else {
        0x31
    };
    let bytes: Vec<u8> = vec![0x1b, 0x5b, 0x3f, 0x39, 0x39, 0x37, 0x3b, digit, 0x6e];
    assert(bytes@ == theme_report_bytes(light_theme));
    bytes
}

/// The clipboard request in the form the outer terminal takes.
pub fn clipboard_sequence(selector: &Vec<u8>, data: &Vec<u8>) -> (bytes: Vec<u8>)
    ensures
        bytes@ == clipboard_bytes(selector@, data@),
{
    let mut bytes: Vec<u8> = vec![0x1b, 0x5d, 0x35, 0x32, 0x3b];
    let mut selector_part = selector.clone();
    let mut data_part = data.clone();
    assert(selector_part@ == selector@);
    assert(data_part@ == data@);
    bytes.append(&mut selector_part);
    bytes.push(0x3b);
    bytes.append(&mut data_part);
    bytes.push(0x1b);
    bytes.push(0x5c);
    assert(bytes@ == clipboard_bytes(selector@, data@));
    bytes
}

/// The answer to a device query that every emulated terminal gives.
pub fn answer_device_query(query: Query, screen: ScreenFacts) -> (reply: Option<Vec<u8>>)
    ensures
        match reply {
            Some(bytes) => device_reply(query, screen) == Some(bytes@),
            None => device_reply(query, screen) is None,
        },
{
    match (query.final_byte, query.intermediate, query.first) {
        ('n', None, Some(5)) => {
            let bytes: Vec<u8> = vec![0x1b, 0x5b, 0x30, 0x6e];
            assert(bytes@ == seq![0x1bu8, 0x5b, 0x30, 0x6e]);
            Some(bytes)
        },
        ('n', None, Some(6)) => {
            let mut bytes: Vec<u8> = vec![0x1b, 0x5b];
            push_decimal(&mut bytes, screen.cursor_row as u32 + 1);
            bytes.push(0x3b);
            push_decimal(&mut bytes, screen.cursor_column as u32 + 1);
            bytes.push(0x52);
            assert(bytes@ == cursor_report(screen.cursor_row, screen.cursor_column));
            Some(bytes)
        },
        ('c', None, _) => {
            let bytes: Vec<u8> = vec![0x1b, 0x5b, 0x3f, 0x36, 0x32, 0x3b, 0x31, 0x3b, 0x36, 0x63];
            assert(bytes@ == seq![0x1bu8, 0x5b, 0x3f, 0x36, 0x32, 0x3b, 0x31, 0x3b, 0x36, 0x63]);
            Some(bytes)
        },
        ('c', Some(0x3e), _) => {
            let bytes: Vec<u8> = vec![0x1b, 0x5b, 0x3e, 0x30, 0x3b, 0x31, 0x30, 0x3b, 0x31, 0x63];
            assert(bytes@ == seq![0x1bu8, 0x5b, 0x3e, 0x30, 0x3b, 0x31, 0x30, 0x3b, 0x31, 0x63]);
            Some(bytes)
        },
        ('t', None, Some(18)) => {
            let mut bytes: Vec<u8> = vec![0x1b, 0x5b, 0x38, 0x3b];
            push_decimal(&mut bytes, screen.rows as u32);
            bytes.push(0x3b);
            push_decimal(&mut bytes, screen.columns as u32);
            bytes.push(0x74);
            assert(bytes@ == size_report(screen.rows, screen.columns));
            Some(bytes)
        },
        _ => None,
    }
}

impl PaneCallbacks {
    /// The callbacks of a pane that has announced nothing yet.
    pub fn new(pane_id: u64, terminal_light_mode: Option<bool>) -> (callbacks: Self)
        ensures
            callbacks.pane_id == pane_id,
            callbacks.title is None,
            callbacks.signals@.len() == 0,
            callbacks.terminal_light_mode == terminal_light_mode,
            !callbacks.theme_updates_requested,
    {
        PaneCallbacks {
            pane_id,
            title: None,
            signals: Vec::new(),
            terminal_light_mode,
            theme_updates_requested: false,
        }
    }

    /// Window title reported by the child, if any; it is handed out once.
    pub fn take_title(&mut self) -> (title: Option<String>)
        ensures
            title == old(self).title,
            *final(self) == (PaneCallbacks { title: None, ..*old(self) }),
    {
        self.title.take()
    }

    /// Everything announced since the last call; each signal is handed out once.
    pub fn take_signals(&mut self) -> (signals: PaneSignals)
        ensures
            signals.title == old(self).title,
            signals.events@ == old(self).signals@,
            final(self).title is None,
            final(self).signals@.len() == 0,
            *final(self) == (PaneCallbacks {
                title: None,
                signals: final(self).signals,
                ..*old(self)
            }),
    {
        let title = self.take_title();
        let mut events: Vec<PaneSignalEvent> = Vec::new();
        events.append(&mut self.signals);
        PaneSignals { title, events }
    }

    /// Changes the appearance the child sees. A child that subscribed to appearance reports is
    /// told of a real change to a definite appearance.
    pub fn set_terminal_light_mode(&mut self, terminal_light_mode: Option<bool>) -> (reply: Option<
        Vec<u8>,
    >)
        ensures
            *final(self) == (PaneCallbacks { terminal_light_mode, ..*old(self) }),
            match terminal_light_mode {
                Some(light) if old(self).terminal_light_mode != terminal_light_mode && old(
                    self,
                ).theme_updates_requested => reply is Some && reply->0@ == theme_report_bytes(
                    light,
                ),
                _ => reply is None,
            },
    {
        if self.terminal_light_mode == terminal_light_mode {
            return None;
        }
        self.terminal_light_mode = terminal_light_mode;
        if self.theme_updates_requested {
            if let Some(light_theme) = terminal_light_mode {
                return Some(theme_report(light_theme));
            }
        }
        None
    }

    /// The child asked for text to be put on the clipboard.
    pub fn copy_to_clipboard(&self, selector: &Vec<u8>, data: &Vec<u8>) -> (action: CallbackAction)
        ensures
            action is Host,
            action->Host_0@ == clipboard_bytes(selector@, data@),
    {
        CallbackAction::Host(clipboard_sequence(selector, data))
    }

    /// The child rang the bell.
    pub fn audible_bell(&mut self)
        ensures
            final(self).signals@ == old(self).signals@.push(PaneSignalEvent::Bell),
            *final(self) == (PaneCallbacks { signals: final(self).signals, ..*old(self) }),
    {
        self.signals.push(PaneSignalEvent::Bell);
    }

    /// The child set its window title.
    pub fn set_window_title(&mut self, title: &Vec<u8>)
        ensures
            final(self).title is Some,
            final(self).title->0@ == lossy_utf8(title@),
            *final(self) == (PaneCallbacks { title: final(self).title, ..*old(self) }),
    {
        self.title = Some(text_of_bytes(title));
    }

    /// The child named its icon: that is its title only where it gave no title.
    pub fn set_window_icon_name(&mut self, name: &Vec<u8>)
        ensures
            match old(self).title {
                Some(_) => final(self).title == old(self).title,
                None => final(self).title is Some && final(self).title->0@ == lossy_utf8(name@),
            },
            *final(self) == (PaneCallbacks { title: final(self).title, ..*old(self) }),
    {
        if self.title.is_none() {
            self.title = Some(text_of_bytes(name));
        }
    }

    /// An operating system command that the screen does not handle: progress reports are recorded
    /// and passed on, everything else is dropped.
    pub fn unhandled_osc(&mut self, params: &Vec<Vec<u8>>) -> (action: Option<CallbackAction>)
        ensures
            match reported_state(params@) {
                Some(state) => {
                    &&& final(self).signals@ == old(self).signals@.push(
                        PaneSignalEvent::Progress(state),
                    )
                    &&& action matches Some(CallbackAction::Host(bytes)) && bytes@
                        == report_start() + params@[2]@ + joined(params@, 3) + seq![0x1bu8, 0x5c]
                },
                None => final(self).signals@ == old(self).signals@ && action is None,
            },
            *final(self) == (PaneCallbacks { signals: final(self).signals, ..*old(self) }),
    {
        if let Some(progress) = progress_state(params) {
            self.signals.push(PaneSignalEvent::Progress(progress));
        }
        match progress_sequence(params) {
            Some(sequence) => Some(CallbackAction::Host(sequence)),
            None => None,
        }
    }

    /// A control sequence that the screen does not handle: device queries are answered, and
    /// subscriptions to appearance reports are kept.
    pub fn unhandled_csi(&mut self, query: Query, screen: ScreenFacts) -> (reply: Option<Vec<u8>>)
        ensures
            match reply {
                Some(bytes) => pane_reply(query, screen, old(self).terminal_light_mode) == Some(
                    bytes@,
                ),
                None => pane_reply(query, screen, old(self).terminal_light_mode) is None,
            },
            *final(self) == (PaneCallbacks {
                theme_updates_requested: theme_subscription(
                    query,
                    old(self).theme_updates_requested,
                ),
                ..*old(self)
            }),
    {
        match (query.final_byte, query.intermediate, query.first) {
            ('n', Some(0x3f), Some(996)) => match self.terminal_light_mode {
                Some(light_theme) => Some(theme_report(light_theme)),
                None => None,
            },
            ('h', Some(0x3f), Some(2031)) => {
                self.theme_updates_requested = true;
                None
            },
            ('l', Some(0x3f), Some(2031)) => {
                self.theme_updates_requested = false;
                None
            },
            _ => answer_device_query(query, screen),
        }
    }
}

/// What a pane answers when it is asked: that it is there, where its cursor stands, what it is, and how
/// large it is, the rows before the columns. Other questions stay open.
pub proof fn law_questions_are_answered(query: Query, screen: ScreenFacts)
    ensures
        query.final_byte == 'n' && query.intermediate is None && query.first == Some(5u16)
            ==> device_reply(query, screen) == Some(seq![27u8, 91, 48, 110]),
        query.final_byte == 'n' && query.intermediate is None && query.first == Some(6u16)
            ==> device_reply(query, screen) == Some(
            seq![27u8, 91] + decimal_bytes((screen.cursor_row + 1) as nat) + seq![59u8] + decimal_bytes(
                (screen.cursor_column + 1) as nat,
            ) + seq![82u8],
        ),
        query.final_byte == 't' && query.intermediate is None && query.first == Some(18u16)
            ==> device_reply(query, screen) == Some(
            seq![27u8, 91, 56, 59] + decimal_bytes(screen.rows as nat) + seq![59u8] + decimal_bytes(
                screen.columns as nat,
            ) + seq![116u8],
        ),
        device_reply(query, screen) is Some ==> query.final_byte == 'n' || query.final_byte == 'c'
            || query.final_byte == 't',
        query.final_byte == 'n' && device_reply(query, screen) is Some ==> query.first == Some(5u16)
            || query.first == Some(6u16),
{
}

/// The colours are reported only where they are known, as one for dark and two for light, and reports
/// are asked for and called off by the same number.
pub proof fn law_colours_are_reported(query: Query, screen: ScreenFacts, light: Option<bool>, before: bool)
    requires
        query.intermediate == Some(63u8),
    ensures
        query.final_byte == 'n' && query.first == Some(996u16) ==> match light {
            None => pane_reply(query, screen, light) is None,
            Some(l) => pane_reply(query, screen, light) matches Some(bytes) && bytes.len() == 9
                && bytes.take(7) == seq![27u8, 91, 63, 57, 57, 55, 59] && bytes[8] == 110 && (bytes[7]
                == 50 <==> l) && (bytes[7] == 49 <==> !l),
        },
        query.first == Some(2031u16) && query.final_byte == 'h' ==> theme_subscription(query, before),
        query.first == Some(2031u16) && query.final_byte == 'l' ==> !theme_subscription(query, before),
        query.first != Some(2031u16) ==> theme_subscription(query, before) == before,
{
    if let Some(l) = light {
        assert(theme_report_bytes(l).take(7) =~= seq![27u8, 91, 63, 57, 57, 55, 59]);
    }
}

/// What is put on the clipboard reaches the outer terminal whole, for the selection that was named.
pub proof fn law_clipboards_are_passed_on(selector: Seq<u8>, data: Seq<u8>)
    ensures
        ({
            let bytes = clipboard_bytes(selector, data);
            let n = selector.len() as int;
            &&& bytes.len() == 8 + n + data.len()
            &&& bytes.take(5) == seq![27u8, 93, 53, 50, 59]
            &&& bytes.subrange(5, 5 + n) == selector
            &&& bytes[5 + n] == 59
            &&& bytes.subrange(6 + n, bytes.len() - 2) == data
            &&& bytes.skip(bytes.len() - 2) == seq![27u8, 92]
        }),
{
    let bytes = clipboard_bytes(selector, data);
    let n = selector.len() as int;
    assert(bytes.take(5) =~= seq![27u8, 93, 53, 50, 59]);
    assert(bytes.subrange(5, 5 + n) =~= selector);
    assert(bytes.subrange(6 + n, bytes.len() - 2) =~= data);
    assert(bytes.skip(bytes.len() - 2) =~= seq![27u8, 92]);
}

} // verus!
