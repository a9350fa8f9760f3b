//! The multiplexer: panes, the prefix key, and what they tell the program.

pub mod callbacks;
pub mod keys;
pub mod pane;
pub mod pty;

use crate::input::{Event, KeyCode, KeyEvent, KeyModifiers};
use crate::lifecycle::LifecycleEvent;
use crate::mux::callbacks::PaneSignals;
use crate::mux::pane::{pane_viewport, Pane, PaneId, PaneStatus, Viewport};
use crate::strings::{
    ascii_digit, ascii_lower, ascii_lower_text, chars_of, decimal, decimal_text, has_prefix,
    is_ascii_digit, matches_at, parse_unsigned, parse_unsigned_between, same_text,
    text_between, to_ascii_lower, trim, trim_range, white,
};
use vstd::prelude::*;

verus! {

/// Events the UI loop must wake up for, from panes and from the terminal.
#[derive(Clone, Debug)]
pub enum MuxEvent {
    Output(PaneId, PaneSignals),
    Exited(PaneId, Option<u32>),
    SessionLifecycle(PaneId, LifecycleEvent),
    HostSequence(PaneId, Vec<u8>),
    ConfigChanged,
    Term(Event),
}

/// A parsed prefix key such as `C-b`, `M-x` or `C-Space`.
#[derive(Clone, Copy, Debug, PartialEq, Eq, Structural)]
pub struct KeyChord {
    pub code: KeyCode,
    pub modifiers: KeyModifiers,
}

/// The modifiers that count in a chord: terminals report the others inconsistently.
pub open spec fn counting_modifiers(m: KeyModifiers) -> KeyModifiers {
    KeyModifiers {
        control: m.control,
        alt: m.alt,
        shift: m.shift,
        ..KeyModifiers::spec_none()
    }
}

/// Whether two keys are the same, letters by their ASCII lower case.
pub open spec fn same_key(a: KeyCode, b: KeyCode) -> bool {
    match (a, b) {
        (KeyCode::Char(x), KeyCode::Char(y)) => ascii_lower(x) == ascii_lower(y),
        _ => a == b,
    }
}

/// The three modifiers a chord can name.
#[derive(Clone, Copy, PartialEq, Eq, Structural)]
pub enum ChordModifier {
    Control,
    Alt,
    Shift,
}

/// The modifier that a lower-cased spelling starts with, and the length of its name with the dash.
pub open spec fn leading_modifier(lower: Seq<char>) -> Option<(ChordModifier, int)> {
    if has_prefix(lower, "c-"@) {
        Some((ChordModifier::Control, 2))
    } else if has_prefix(lower, "ctrl-"@) {
        Some((ChordModifier::Control, 5))
    } else if has_prefix(lower, "m-"@) {
        Some((ChordModifier::Alt, 2))
    } else if has_prefix(lower, "alt-"@) {
        Some((ChordModifier::Alt, 4))
    } else if has_prefix(lower, "s-"@) {
        Some((ChordModifier::Shift, 2))
    } else if has_prefix(lower, "shift-"@) {
        Some((ChordModifier::Shift, 6))
    } else {
        None
    }
}

/// A modifier set with one more modifier.
pub open spec fn with_modifier(m: KeyModifiers, modifier: ChordModifier) -> KeyModifiers {
    match modifier {
        ChordModifier::Control => KeyModifiers { control: true, ..m },
        ChordModifier::Alt => KeyModifiers { alt: true, ..m },
        ChordModifier::Shift => KeyModifiers { shift: true, ..m },
    }
}

/// Strips the modifier names off a lower-cased spelling, in any order and number.
pub open spec fn strip_modifiers(lower: Seq<char>, m: KeyModifiers) -> (KeyModifiers, Seq<char>)
    decreases lower.len(),
{
    match leading_modifier(lower) {
        Some((modifier, length)) => if 0 < length <= lower.len() {
            strip_modifiers(lower.skip(length), with_modifier(m, modifier))
        } else {
            (m, lower)
        },
        None => (m, lower),
    }
}

/// The key that a lower-cased name stands for: a named key, `f1` to `f12`, or one character. A name
/// that starts with `f` is always read as a function key.
pub open spec fn named_key(name: Seq<char>) -> Option<KeyCode> {
    if name == "space"@ {
        Some(KeyCode::Char(' '))
    } else if name == "tab"@ {
        Some(KeyCode::Tab)
    } else if name == "enter"@ || name == "return"@ {
        Some(KeyCode::Enter)
    } else if name == "esc"@ || name == "escape"@ {
        Some(KeyCode::Esc)
    } else if name.len() > 0 && name[0] == 'f' {
        match parse_unsigned(name.skip(1), 255) {
            Some(n) => if 1 <= n <= 12 {
                Some(KeyCode::F(n as u8))
            } else {
                None
            },
            None => None,
        }
    } else if name.len() == 1 {
        Some(KeyCode::Char(name[0]))
    } else {
        None
    }
}

/// The chord that a spelling stands for. A bare character with no modifiers is none: it would
/// swallow ordinary typing.
pub open spec fn parsed_chord(text: Seq<char>) -> Option<KeyChord> {
    let (m, name) = strip_modifiers(ascii_lower_text(trim(text)), KeyModifiers::spec_none());
    match named_key(name) {
        Some(code) => if m == KeyModifiers::spec_none() && code is Char {
            None
        } else {
            Some(KeyChord { code, modifiers: m })
        },
        None => None,
    }
}

/// The name of a key in a label. A function key is labelled `F(n)`.
pub open spec fn key_name(code: KeyCode) -> Seq<char> {
    match code {
        KeyCode::Char(c) => if c == ' ' {
            "Space"@
        } else {
            seq![c]
        },
        KeyCode::F(n) => "F("@ + decimal(n as nat) + ")"@,
        KeyCode::Backspace => "Backspace"@,
        KeyCode::Enter => "Enter"@,
        KeyCode::Left => "Left"@,
        KeyCode::Right => "Right"@,
        KeyCode::Up => "Up"@,
        KeyCode::Down => "Down"@,
        KeyCode::Home => "Home"@,
        KeyCode::End => "End"@,
        KeyCode::PageUp => "PageUp"@,
        KeyCode::PageDown => "PageDown"@,
        KeyCode::Tab => "Tab"@,
        KeyCode::BackTab => "BackTab"@,
        KeyCode::Delete => "Delete"@,
        KeyCode::Insert => "Insert"@,
        KeyCode::Null => "Null"@,
        KeyCode::Esc => "Esc"@,
        KeyCode::Other => "Other"@,
    }
}

/// The label of a chord: `C-`, `M-` and `S-` for its modifiers, and the name of its key.
pub open spec fn chord_label(chord: KeyChord) -> Seq<char> {
    (if chord.modifiers.control {
        "C-"@
    } else {
        Seq::empty()
    }) + (if chord.modifiers.alt {
        "M-"@
    } else {
        Seq::empty()
    }) + (if chord.modifiers.shift {
        "S-"@
    } else {
        Seq::empty()
    }) + key_name(chord.code)
}

/// Ignores modifiers that terminals report inconsistently.
fn relevant_modifiers(m: KeyModifiers) -> (r: KeyModifiers)
    ensures
        r == counting_modifiers(m),
{
    KeyModifiers { control: m.control, alt: m.alt, shift: m.shift, ..KeyModifiers::none() }
}

/// Whether the characters from `from` on start with a prefix.
fn starts_at(chars: &Vec<char>, from: usize, prefix: &str) -> (r: bool)
    requires
        from <= chars@.len(),
    ensures
        r == has_prefix(chars@.skip(from as int), prefix@),
{
    matches_at(chars, from, &chars_of(prefix))
}

fn leading_modifier_at(chars: &Vec<char>, from: usize) -> (r: Option<(ChordModifier, usize)>)
    requires
        from <= chars@.len(),
    ensures
        match r {
            Some((modifier, length)) => leading_modifier(chars@.skip(from as int)) == Some(
                (modifier, length as int),
            ) && 0 < length <= chars@.len() - from,
            None => leading_modifier(chars@.skip(from as int)) is None,
        },
{
    proof {
        reveal_strlit("c-");
        reveal_strlit("ctrl-");
        reveal_strlit("m-");
        reveal_strlit("alt-");
        reveal_strlit("s-");
        reveal_strlit("shift-");
    }
    if starts_at(chars, from, "c-") {
        Some((ChordModifier::Control, 2))
    } else if starts_at(chars, from, "ctrl-") {
        Some((ChordModifier::Control, 5))
    } else if starts_at(chars, from, "m-") {
        Some((ChordModifier::Alt, 2))
    } else if starts_at(chars, from, "alt-") {
        Some((ChordModifier::Alt, 4))
    } else if starts_at(chars, from, "s-") {
        Some((ChordModifier::Shift, 2))
    } else if starts_at(chars, from, "shift-") {
        Some((ChordModifier::Shift, 6))
    } else {
        None
    }
}

fn read_named_key(chars: &Vec<char>, from: usize) -> (code: Option<KeyCode>)
    requires
        from <= chars@.len(),
    ensures
        code == named_key(chars@.skip(from as int)),
{
    let end: usize = chars.len();
    let name = text_between(chars, from, end);
    assert(name@ == chars@.skip(from as int));
    let name = name.as_str();
    if same_text(name, "space") {
        Some(KeyCode::Char(' '))
    } else if same_text(name, "tab") {
        Some(KeyCode::Tab)
    } else if same_text(name, "enter") || same_text(name, "return") {
        Some(KeyCode::Enter)
    } else if same_text(name, "esc") || same_text(name, "escape") {
        Some(KeyCode::Esc)
    } else if from < end && chars[from] == 'f' {
        assert(chars@.subrange(from + 1, end as int) == chars@.skip(from as int).skip(1));
        match parse_unsigned_between(chars, from + 1, end, 255) {
            Some(n) => {
                if 1 <= n && n <= 12 {
                    Some(KeyCode::F(n as u8))
                } else {
                    None
                }
            },
            None => None,
        }
    } else if end - from == 1 {
        Some(KeyCode::Char(chars[from]))
    } else {
        None
    }
}

impl KeyChord {
    /// Whether a key event is this chord.
    pub open spec fn is_pressed(self, key: KeyEvent) -> bool {
        same_key(self.code, key.code) && self.modifiers == counting_modifiers(key.modifiers)
    }

    /// Whether a key event is this chord. Letters compare case-insensitively: Ctrl-b and Ctrl-B are
    /// the same chord.
    pub fn matches(&self, key: &KeyEvent) -> (r: bool)
        ensures
            r == self.is_pressed(*key),
    {
        let same_code = match (self.code, key.code) {
            (KeyCode::Char(a), KeyCode::Char(b)) => to_ascii_lower(a) == to_ascii_lower(b),
            (a, b) => a == b,
        };
        same_code && self.modifiers == relevant_modifiers(key.modifiers)
    }

    /// Parses `C-b`, `M-x`, `C-M-a`, `C-Space`, `F5`… Returns `None` on bad input so callers can fall
    /// back to the default rather than failing startup.
    pub fn parse(text: &str) -> (chord: Option<KeyChord>)
        ensures
            chord == parsed_chord(text@),
    {
        let source = chars_of(text);
        let range = trim_range(&source);
        let mut chars: Vec<char> = Vec::new();
        let mut i: usize = range.0;
        while i < range.1
            invariant
                range.0 <= i <= range.1 <= source@.len(),
                chars@ == ascii_lower_text(source@.subrange(range.0 as int, i as int)),
            decreases range.1 - i,
        {
            chars.push(to_ascii_lower(source[i]));
            assert(source@.subrange(range.0 as int, i + 1) == source@.subrange(
                range.0 as int,
                i as int,
            ).push(source@[i as int]));
            assert(chars@ == ascii_lower_text(source@.subrange(range.0 as int, i + 1)));
            i = i + 1;
        }
        let ghost lower = ascii_lower_text(trim(text@));
        assert(chars@ == lower);
        let mut modifiers = KeyModifiers::none();
        let mut from: usize = 0;
        assert(lower.skip(0) == lower);
        let count: usize = chars.len();
        let mut next = leading_modifier_at(&chars, from);
        while next.is_some()
            invariant
                from <= count,
                count == chars@.len(),
                chars@ == lower,
                strip_modifiers(lower, KeyModifiers::spec_none()) == strip_modifiers(
                    lower.skip(from as int),
                    modifiers,
                ),
                match next {
                    Some((modifier, length)) => leading_modifier(lower.skip(from as int)) == Some(
                        (modifier, length as int),
                    ) && 0 < length <= chars@.len() - from,
                    None => leading_modifier(lower.skip(from as int)) is None,
                },
            decreases chars@.len() - from,
        {
            let (modifier, length) = next.unwrap();
            match modifier {
                ChordModifier::Control => {
                    modifiers.control = true;
                },
                ChordModifier::Alt => {
                    modifiers.alt = true;
                },
                ChordModifier::Shift => {
                    modifiers.shift = true;
                },
            }
            assert(lower.skip(from as int).skip(length as int) == lower.skip(from + length));
            from = from + length;
            next = leading_modifier_at(&chars, from);
        }
        let code = match read_named_key(&chars, from) {
            Some(code) => code,
            None => {
                return None;
            },
        };
        let character = match code {
            KeyCode::Char(_) => true,
            _ => false,
        };
        if modifiers == KeyModifiers::none() && character {
            return None;
        }
        Some(KeyChord { code, modifiers })
    }

    /// The label of the chord.
    pub fn label(&self) -> (label: String)
        ensures
            label@ == chord_label(*self),
    {
        let mut label = String::new();
        if self.modifiers.control {
            label.append("C-");
        }
        if self.modifiers.alt {
            label.append("M-");
        }
        if self.modifiers.shift {
            label.append("S-");
        }
        let ghost head = label@;
        match self.code {
            KeyCode::Char(c) => {
                if c == ' ' {
                    label.append("Space");
                } else {
                    label.push(c);
                    assert(label@ == head + seq![c]);
                }
            },
            KeyCode::F(n) => {
                label.append("F(");
                let number = decimal_text(n as u64);
                label.append(number.as_str());
                label.append(")");
                assert(label@ == head + ("F("@ + decimal(n as nat) + ")"@));
            },
            KeyCode::Backspace => label.append("Backspace"),
            KeyCode::Enter => label.append("Enter"),
            KeyCode::Left => label.append("Left"),
            KeyCode::Right => label.append("Right"),
            KeyCode::Up => label.append("Up"),
            KeyCode::Down => label.append("Down"),
            KeyCode::Home => label.append("Home"),
            KeyCode::End => label.append("End"),
            KeyCode::PageUp => label.append("PageUp"),
            KeyCode::PageDown => label.append("PageDown"),
            KeyCode::Tab => label.append("Tab"),
            KeyCode::BackTab => label.append("BackTab"),
            KeyCode::Delete => label.append("Delete"),
            KeyCode::Insert => label.append("Insert"),
            KeyCode::Null => label.append("Null"),
            KeyCode::Esc => label.append("Esc"),
            KeyCode::Other => label.append("Other"),
        }
        label
    }
}

/// What the prefix key sequence resolved to.
#[derive(Clone, Copy, Debug, PartialEq, Eq, Structural)]
pub enum PrefixCommand {
    Detach,
    NextPane,
    PreviousPane,
    KillPane,
    PaneList,
    Chat,
    Scratchpad,
    Terminal,
    Snippets,
    Update,
    Help,
    Github,
    /// `prefix q` — end the focused session and the program together.
    Quit,
    SelectIndex(usize),
    /// `prefix prefix` — send a literal prefix keystroke to the child.
    Literal,
    Cancel,
}

/// The command of a key behind the prefix key.
pub open spec fn prefix_command(key: KeyEvent, prefix: KeyChord) -> Option<PrefixCommand> {
    if prefix.is_pressed(key) {
        Some(PrefixCommand::Literal)
    } else {
        match key.code {
            KeyCode::Char(c) => if c == 'd' {
                Some(PrefixCommand::Detach)
            } else if c == 'n' {
                Some(PrefixCommand::NextPane)
            } else if c == 'p' {
                Some(PrefixCommand::PreviousPane)
            } else if c == 'x' {
                Some(PrefixCommand::KillPane)
            } else if c == 'w' {
                Some(PrefixCommand::PaneList)
            } else if c == 'c' {
                Some(PrefixCommand::Chat)
            } else if c == 'e' {
                Some(PrefixCommand::Scratchpad)
            } else if c == 't' {
                Some(PrefixCommand::Terminal)
            } else if c == 's' {
                Some(PrefixCommand::Snippets)
            } else if c == 'u' {
                Some(PrefixCommand::Update)
            } else if c == 'q' {
                Some(PrefixCommand::Quit)
            } else if (c == 'h' || c == 'H') && key.modifiers.control {
                Some(PrefixCommand::Help)
            } else if (c == 'g' || c == 'G') && key.modifiers.control {
                Some(PrefixCommand::Github)
            } else if ascii_digit(c) {
                Some(PrefixCommand::SelectIndex((c as u32 - 48) as usize))
            } else {
                None
            },
            KeyCode::Backspace => Some(PrefixCommand::Help),
            KeyCode::Esc => Some(PrefixCommand::Cancel),
            _ => None,
        }
    }
}

/// The command of a key behind the prefix key.
pub fn resolve_prefix_command(key: &KeyEvent, prefix: &KeyChord) -> (command: Option<PrefixCommand>)
    ensures
        command == prefix_command(*key, *prefix),
{
    if prefix.matches(key) {
        return Some(PrefixCommand::Literal);
    }
    match key.code {
        KeyCode::Char('d') => Some(PrefixCommand::Detach),
        KeyCode::Char('n') => Some(PrefixCommand::NextPane),
        KeyCode::Char('p') => Some(PrefixCommand::PreviousPane),
        KeyCode::Char('x') => Some(PrefixCommand::KillPane),
        KeyCode::Char('w') => Some(PrefixCommand::PaneList),
        KeyCode::Char('c') => Some(PrefixCommand::Chat),
        KeyCode::Char('e') => Some(PrefixCommand::Scratchpad),
        KeyCode::Char('t') => Some(PrefixCommand::Terminal),
        KeyCode::Char('s') => Some(PrefixCommand::Snippets),
        KeyCode::Char('u') => Some(PrefixCommand::Update),
        KeyCode::Char('q') => Some(PrefixCommand::Quit),
        KeyCode::Char(c) => {
            if to_ascii_lower(c) == 'h' && key.modifiers.control {
                Some(PrefixCommand::Help)
            } else if to_ascii_lower(c) == 'g' && key.modifiers.control {
                Some(PrefixCommand::Github)
            } else if is_ascii_digit(c) {
                Some(PrefixCommand::SelectIndex((c as u32 - 48) as usize))
            } else {
                None
            }
        },
        KeyCode::Backspace => Some(PrefixCommand::Help),
        KeyCode::Esc => Some(PrefixCommand::Cancel),
        _ => None,
    }
}

/// A topic of the help that is opened behind the prefix key.
#[derive(Clone, Copy, Debug, PartialEq, Eq, Structural)]
pub enum HelpCommand {
    Scratchpad,
    Cancel,
}

/// The help topic of a key.
pub open spec fn help_command(key: KeyEvent) -> Option<HelpCommand> {
    match key.code {
        KeyCode::Char(c) => if c == 'e' {
            Some(HelpCommand::Scratchpad)
        } else {
            None
        },
        KeyCode::Esc => Some(HelpCommand::Cancel),
        _ => None,
    }
}

/// The help topic of a key.
pub fn resolve_help_command(key: &KeyEvent) -> (command: Option<HelpCommand>)
    ensures
        command == help_command(*key),
{
    match key.code {
        KeyCode::Char('e') => Some(HelpCommand::Scratchpad),
        KeyCode::Esc => Some(HelpCommand::Cancel),
        _ => None,
    }
}

/// A command of the GitHub namespace behind the prefix key.
#[derive(Clone, Copy, Debug, PartialEq, Eq, Structural)]
pub enum GithubCommand {
    Inspect,
    Cancel,
}

/// The GitHub command of a key.
pub open spec fn github_command(key: KeyEvent) -> Option<GithubCommand> {
    match key.code {
        KeyCode::Char(c) => if c == 'i' {
            Some(GithubCommand::Inspect)
        } else {
            None
        },
        KeyCode::Esc => Some(GithubCommand::Cancel),
        _ => None,
    }
}

/// The GitHub command of a key.
pub fn resolve_github_command(key: &KeyEvent) -> (command: Option<GithubCommand>)
    ensures
        command == github_command(*key),
{
    match key.code {
        KeyCode::Char('i') => Some(GithubCommand::Inspect),
        KeyCode::Esc => Some(GithubCommand::Cancel),
        _ => None,
    }
}

/// How far a prefix sequence has come.
#[derive(Clone, Copy, Debug, PartialEq, Eq, Structural)]
pub enum PrefixState {
    Idle,
    Root,
    Help,
    Github,
}

/// All panes owned by this instance of the program.
pub struct MuxState {
    pub panes: Vec<Pane>,
    pub focused: Option<PaneId>,
    pub prefix: KeyChord,
    pub prefix_state: PrefixState,
    pub next_id: PaneId,
}

/// The position of the first pane with an id, counted from `from`.
pub open spec fn pane_position_from(panes: Seq<Pane>, id: PaneId, from: int) -> Option<int>
    decreases panes.len() - from,
{
    if from >= panes.len() {
        None
    } else if panes[from].id == id {
        Some(from)
    } else {
        pane_position_from(panes, id, from + 1)
    }
}

/// The position of the pane with an id.
pub open spec fn pane_position(panes: Seq<Pane>, id: PaneId) -> Option<int> {
    pane_position_from(panes, id, 0)
}

/// Whether no two panes share an id.
pub open spec fn distinct_ids(panes: Seq<Pane>) -> bool {
    forall|i: int, j: int|
        0 <= i < j < panes.len() ==> (#[trigger] panes[i]).id != (#[trigger] panes[j]).id
}

/// The number of panes whose child runs, other than the one to skip.
pub open spec fn running_panes(panes: Seq<Pane>, skip: Option<PaneId>) -> nat
    decreases panes.len(),
{
    if panes.len() == 0 {
        0
    } else {
        running_panes(panes.drop_last(), skip) + (if panes.last().status == PaneStatus::Running
            && skip != Some(panes.last().id) {
            1nat
        } else {
            0
        })
    }
}

proof fn lemma_running_panes_bound(panes: Seq<Pane>, skip: Option<PaneId>)
    ensures
        running_panes(panes, skip) <= panes.len(),
    decreases panes.len(),
{
    if panes.len() > 0 {
        lemma_running_panes_bound(panes.drop_last(), skip);
    }
}

/// A found position is the first of its id.
pub proof fn lemma_pane_position(panes: Seq<Pane>, id: PaneId, from: int)
    requires
        0 <= from,
    ensures
        match pane_position_from(panes, id, from) {
            Some(i) => from <= i < panes.len() && panes[i].id == id && forall|j: int|
                from <= j < i ==> (#[trigger] panes[j]).id != id,
            None => forall|j: int| from <= j < panes.len() ==> (#[trigger] panes[j]).id != id,
        },
    decreases panes.len() - from,
{
    if from < panes.len() && panes[from].id != id {
        lemma_pane_position(panes, id, from + 1);
    }
}

/// The focus after moving to the next or the previous pane, round the ends. With fewer than two
/// panes it stays; a focus on no pane goes to the first.
pub open spec fn cycled_focus(panes: Seq<Pane>, focused: Option<PaneId>, forward: bool) -> Option<
    PaneId,
> {
    if panes.len() < 2 {
        focused
    } else {
        match focused {
            Some(id) => match pane_position(panes, id) {
                Some(current) => Some(
                    panes[if forward {
                        (current + 1) % panes.len() as int
                    } else {
                        (current + panes.len() - 1) % panes.len() as int
                    }].id,
                ),
                None => Some(panes[0].id),
            },
            None => Some(panes[0].id),
        }
    }
}

/// The focus after the focused pane at a position has left: the one that took its place, or the last.
pub open spec fn focus_after_removal(panes: Seq<Pane>, at: int) -> Option<PaneId> {
    if at < panes.len() {
        Some(panes[at].id)
    } else if panes.len() > 0 {
        Some(panes.last().id)
    } else {
        None
    }
}

impl MuxState {
    /// A multiplexer without panes.
    pub fn new(prefix: KeyChord) -> (state: Self)
        ensures
            state.panes@.len() == 0,
            state.focused is None,
            state.prefix == prefix,
            state.prefix_state == PrefixState::Idle,
            state.next_id == 1,
    {
        MuxState {
            panes: Vec::new(),
            focused: None,
            prefix,
            prefix_state: PrefixState::Idle,
            next_id: 1,
        }
    }

    /// A pane number that was not given out before.
    pub fn allocate_id(&mut self) -> (id: PaneId)
        requires
            old(self).next_id < u64::MAX,
        ensures
            id == old(self).next_id,
            *final(self) == (MuxState { next_id: (id + 1) as u64, ..*old(self) }),
    {
        let id = self.next_id;
        self.next_id = id + 1;
        id
    }

    /// The position of the pane with an id.
    pub fn position(&self, id: PaneId) -> (at: Option<usize>)
        ensures
            match at {
                Some(i) => i < self.panes@.len() && pane_position(self.panes@, id) == Some(i as int),
                None => pane_position(self.panes@, id) is None,
            },
    {
        let mut i: usize = 0;
        while i < self.panes.len()
            invariant
                i <= self.panes@.len(),
                pane_position(self.panes@, id) == pane_position_from(self.panes@, id, i as int),
            decreases self.panes@.len() - i,
        {
            if self.panes[i].id == id {
                return Some(i);
            }
            i = i + 1;
        }
        None
    }

    /// The pane with an id.
    pub fn pane(&self, id: PaneId) -> (pane: Option<&Pane>)
        ensures
            match pane_position(self.panes@, id) {
                Some(i) => pane == Some(&self.panes@[i]),
                None => pane is None,
            },
    {
        match self.position(id) {
            Some(i) => Some(&self.panes[i]),
            None => None,
        }
    }

    /// The pane with an id, for changing it.
    pub fn pane_mut(&mut self, id: PaneId) -> (pane: Option<&mut Pane>)
        ensures
            match pane_position(old(self).panes@, id) {
                Some(i) => {
                    &&& pane is Some
                    &&& *pane->0 == old(self).panes@[i]
                    &&& final(self).panes@ == old(self).panes@.update(i, *final(pane->0))
                    &&& *final(self) == (MuxState { panes: final(self).panes, ..*old(self) })
                },
                None => pane is None && *final(self) == *old(self),
            },
    {
        match self.position(id) {
            Some(i) => {
                proof {
                    lemma_pane_position(self.panes@, id, 0);
                }
                Some(&mut self.panes[i])
            },
            None => None,
        }
    }

    /// The focused pane.
    pub fn focused_pane(&self) -> (pane: Option<&Pane>)
        ensures
            match self.focused_position() {
                Some(i) => pane == Some(&self.panes@[i]),
                None => pane is None,
            },
    {
        match self.focused {
            Some(id) => self.pane(id),
            None => None,
        }
    }

    /// The position of the focused pane.
    pub open spec fn focused_position(&self) -> Option<int> {
        match self.focused {
            Some(id) => pane_position(self.panes@, id),
            None => None,
        }
    }

    /// The focused pane, for changing it.
    pub fn focused_pane_mut(&mut self) -> (pane: Option<&mut Pane>)
        ensures
            match old(self).focused_position() {
                Some(i) => {
                    &&& pane is Some
                    &&& *pane->0 == old(self).panes@[i]
                    &&& final(self).panes@ == old(self).panes@.update(i, *final(pane->0))
                    &&& *final(self) == (MuxState { panes: final(self).panes, ..*old(self) })
                },
                None => pane is None && *final(self) == *old(self),
            },
    {
        match self.focused {
            Some(id) => self.pane_mut(id),
            None => None,
        }
    }

    /// Existing pane for a session, so that opening it again focuses instead of duplicating.
    pub fn pane_for_session(&self, session_id: &str) -> (id: Option<PaneId>)
        ensures
            match id {
                Some(found) => exists|i: int|
                    0 <= i < self.panes@.len() && (#[trigger] self.panes@[i]).id == found
                        && self.panes@[i].session_id@ == session_id@ && forall|j: int|
                        0 <= j < i ==> (#[trigger] self.panes@[j]).session_id@ != session_id@,
                None => forall|j: int|
                    0 <= j < self.panes@.len() ==> (#[trigger] self.panes@[j]).session_id@
                        != session_id@,
            },
    {
        let mut i: usize = 0;
        while i < self.panes.len()
            invariant
                i <= self.panes@.len(),
                forall|j: int|
                    0 <= j < i ==> (#[trigger] self.panes@[j]).session_id@ != session_id@,
            decreases self.panes@.len() - i,
        {
            if same_text(self.panes[i].session_id.as_str(), session_id) {
                assert(self.panes@[i as int].session_id@ == session_id@);
                return Some(self.panes[i].id);
            }
            i = i + 1;
        }
        None
    }

    /// Adds a pane and focuses it.
    pub fn push(&mut self, pane: Pane) -> (id: PaneId)
        ensures
            id == pane.id,
            final(self).panes@ == old(self).panes@.push(pane),
            *final(self) == (MuxState {
                panes: final(self).panes,
                focused: Some(pane.id),
                ..*old(self)
            }),
    {
        let id = pane.id;
        self.panes.push(pane);
        self.focused = Some(id);
        id
    }

    /// Removes a pane, and says whether it was there: its child has to be ended then. A focus on it
    /// goes to the pane that took its place, or to the last.
    pub fn remove(&mut self, id: PaneId) -> (removed: bool)
        ensures
            match pane_position(old(self).panes@, id) {
                Some(i) => {
                    &&& removed
                    &&& final(self).panes@ == old(self).panes@.remove(i)
                    &&& *final(self) == (MuxState {
                        panes: final(self).panes,
                        focused: if old(self).focused == Some(id) {
                            focus_after_removal(old(self).panes@.remove(i), i)
                        } else {
                            old(self).focused
                        },
                        ..*old(self)
                    })
                },
                None => !removed && *final(self) == *old(self),
            },
    {
        match self.position(id) {
            Some(index) => {
                self.panes.remove(index);
                if self.focused == Some(id) {
                    let count: usize = self.panes.len();
                    self.focused = if index < count {
                        Some(self.panes[index].id)
                    } else if count > 0 {
                        Some(self.panes[count - 1].id)
                    } else {
                        None
                    };
                }
                true
            },
            None => false,
        }
    }

    /// Moves the focus to the next or the previous pane.
    pub fn cycle(&mut self, forward: bool)
        ensures
            *final(self) == (MuxState {
                focused: cycled_focus(old(self).panes@, old(self).focused, forward),
                ..*old(self)
            }),
    {
        let count: usize = self.panes.len();
        if count < 2 {
            return;
        }
        let current = match self.focused {
            Some(id) => self.position(id),
            None => None,
        };
        match current {
            Some(at) => {
                let next: usize = if forward {
                    if at + 1 < count {
                        at + 1
                    } else {
                        0
                    }
                } else if at > 0 {
                    at - 1
                } else {
                    count - 1
                };
                proof {
                    lemma_round(at as int, count as int);
                }
                self.focused = Some(self.panes[next].id);
            },
            None => {
                self.focused = Some(self.panes[0].id);
            },
        }
    }

    /// Focuses the pane at a position, if there is one.
    pub fn select_index(&mut self, index: usize)
        ensures
            *final(self) == (MuxState {
                focused: if index < old(self).panes@.len() {
                    Some(old(self).panes@[index as int].id)
                } else {
                    old(self).focused
                },
                ..*old(self)
            }),
    {
        if index < self.panes.len() {
            self.focused = Some(self.panes[index].id);
        }
    }

    fn count_running(&self, skip: Option<PaneId>) -> (count: usize)
        ensures
            count == running_panes(self.panes@, skip),
    {
        let mut count: usize = 0;
        let mut i: usize = 0;
        while i < self.panes.len()
            invariant
                i <= self.panes@.len(),
                count == running_panes(self.panes@.take(i as int), skip),
                count <= i,
            decreases self.panes@.len() - i,
        {
            assert(self.panes@.take(i + 1).drop_last() == self.panes@.take(i as int));
            if self.panes[i].is_running() && skip != Some(self.panes[i].id) {
                count = count + 1;
            }
            i = i + 1;
        }
        assert(self.panes@.take(i as int) == self.panes@);
        count
    }

    /// The number of panes whose child runs.
    pub fn running_count(&self) -> (count: usize)
        ensures
            count == running_panes(self.panes@, None),
    {
        self.count_running(None)
    }

    /// Running panes other than the focused one: the sessions a quit would end without the user
    /// seeing them go.
    pub fn background_running_count(&self) -> (count: usize)
        ensures
            count == running_panes(self.panes@, self.focused),
    {
        self.count_running(self.focused)
    }

    /// Catches exits whose notification never arrived: `ended` gives for each pane the exit code of
    /// a child that has ended.
    pub fn reap(&mut self, ended: &Vec<Option<u32>>)
        requires
            ended@.len() == old(self).panes@.len(),
        ensures
            final(self).panes@.len() == old(self).panes@.len(),
            forall|i: int|
                0 <= i < old(self).panes@.len() ==> reaped(
                    old(self).panes@[i],
                    ended@[i],
                    #[trigger] final(self).panes@[i],
                ),
            *final(self) == (MuxState { panes: final(self).panes, ..*old(self) }),
    {
        let count: usize = self.panes.len();
        let mut i: usize = 0;
        while i < count
            invariant
                i <= count,
                count == old(self).panes@.len(),
                ended@.len() == count,
                self.panes@.len() == count,
                forall|j: int|
                    0 <= j < i ==> reaped(
                        old(self).panes@[j],
                        ended@[j],
                        #[trigger] self.panes@[j],
                    ),
                forall|j: int| i <= j < count ==> #[trigger] self.panes@[j] == old(self).panes@[j],
                *self == (MuxState { panes: self.panes, ..*old(self) }),
            decreases count - i,
        {
            let code = ended[i];
            let pane = &mut self.panes[i];
            pane.poll_exit(code);
            i = i + 1;
        }
    }

    /// Directory of the focused pane.
    pub fn focused_cwd(&self) -> (cwd: Option<String>)
        ensures
            match self.focused_position() {
                Some(i) => cwd == Some(self.panes@[i].cwd),
                None => cwd is None,
            },
    {
        match self.focused_pane() {
            Some(pane) => Some(pane.cwd.clone()),
            None => None,
        }
    }

    /// The panes at a place, each where its child took the size.
    pub open spec fn panes_moved(self, viewport: Viewport, taken: Seq<bool>) -> Seq<Pane> {
        Seq::new(self.panes@.len(), |i: int| self.panes@[i].moved(viewport, taken[i]))
    }

    /// Gives every pane the same place and size; `taken` says for each pane whether its child took
    /// that size. The panes whose children did not stay where they are.
    pub fn resize_all_at(&mut self, x: u16, y: u16, rows: u16, cols: u16, taken: &Vec<bool>)
        requires
            taken@.len() == old(self).panes@.len(),
        ensures
            final(self).panes@ == old(self).panes_moved(pane_viewport(x, y, rows, cols), taken@),
            *final(self) == (MuxState { panes: final(self).panes, ..*old(self) }),
    {
        let count: usize = self.panes.len();
        let mut i: usize = 0;
        while i < count
            invariant
                i <= count,
                count == old(self).panes@.len(),
                self.panes@.len() == count,
                taken@.len() == count,
                forall|j: int|
                    0 <= j < i ==> #[trigger] self.panes@[j] == old(self).panes@[j].moved(
                        pane_viewport(x, y, rows, cols),
                        taken@[j],
                    ),
                forall|j: int| i <= j < count ==> #[trigger] self.panes@[j] == old(self).panes@[j],
                *self == (MuxState { panes: self.panes, ..*old(self) }),
            decreases count - i,
        {
            if taken[i] {
                let pane = &mut self.panes[i];
                let _ = pane.resize_at(x, y, rows, cols, Ok(()));
            }
            i = i + 1;
        }
        assert(self.panes@ =~= old(self).panes_moved(pane_viewport(x, y, rows, cols), taken@));
    }

    /// Gives every pane the corner of the screen and the same size.
    pub fn resize_all(&mut self, rows: u16, cols: u16, taken: &Vec<bool>)
        requires
            taken@.len() == old(self).panes@.len(),
        ensures
            final(self).panes@ == old(self).panes_moved(pane_viewport(0, 0, rows, cols), taken@),
            *final(self) == (MuxState { panes: final(self).panes, ..*old(self) }),
    {
        self.resize_all_at(0, 0, rows, cols, taken);
    }

    /// Forgets every pane; their children have been told to end.
    pub fn shutdown(&mut self)
        ensures
            final(self).panes@.len() == 0,
            *final(self) == (MuxState { panes: final(self).panes, focused: None, ..*old(self) }),
    {
        self.panes.clear();
        self.focused = None;
    }
}

/// Whether a pane is what picking up the end of its child makes of another.
pub open spec fn reaped(before: Pane, ended: Option<u32>, after: Pane) -> bool {
    match (before.status, ended) {
        (PaneStatus::Running, Some(code)) => {
            &&& after.status == PaneStatus::Exited(Some(code))
            &&& after.pending_inputs@.len() == 0
            &&& !after.cycle.working
            &&& after.cycle.progress == crate::host_terminal::ProgressState::Clear
            &&& after == (Pane {
                status: after.status,
                cycle: crate::mux::pane::WorkCycle {
                    working: false,
                    progress: crate::host_terminal::ProgressState::Clear,
                    ..before.cycle
                },
                pending_inputs: after.pending_inputs,
                ..before
            })
        },
        _ => after == before,
    }
}

proof fn lemma_round(at: int, count: int)
    requires
        0 <= at < count,
    ensures
        (at + 1) % count == (if at + 1 < count {
            at + 1
        } else {
            0
        }),
        (at + count - 1) % count == (if at > 0 {
            at - 1
        } else {
            count - 1
        }),
{
    if at + 1 < count {
        vstd::arithmetic::div_mod::lemma_small_mod((at + 1) as nat, count as nat);
    } else {
        vstd::arithmetic::div_mod::lemma_mod_self_0(count);
    }
    if at > 0 {
        vstd::arithmetic::div_mod::lemma_mod_add_multiples_vanish(at - 1, count);
        vstd::arithmetic::div_mod::lemma_small_mod((at - 1) as nat, count as nat);
        assert(at + count - 1 == count + (at - 1));
    } else {
        vstd::arithmetic::div_mod::lemma_small_mod((count - 1) as nat, count as nat);
    }
}

proof fn lemma_strip_is_suffix(lower: Seq<char>, m: KeyModifiers)
    ensures
        ({
            let name = strip_modifiers(lower, m).1;
            name.len() <= lower.len() && name == lower.skip(lower.len() - name.len())
        }),
    decreases lower.len(),
{
    match leading_modifier(lower) {
        Some((modifier, length)) => {
            if 0 < length <= lower.len() {
                let rest = lower.skip(length);
                lemma_strip_is_suffix(rest, with_modifier(m, modifier));
                let name = strip_modifiers(rest, with_modifier(m, modifier)).1;
                assert(rest.skip(rest.len() - name.len()) == lower.skip(lower.len() - name.len()));
            } else {
                assert(lower.skip(0) == lower);
            }
        },
        None => {
            assert(lower.skip(0) == lower);
        },
    }
}

proof fn lemma_strip_counting(lower: Seq<char>, m: KeyModifiers)
    requires
        m == counting_modifiers(m),
    ensures
        ({
            let stripped = strip_modifiers(lower, m).0;
            stripped == counting_modifiers(stripped)
        }),
    decreases lower.len(),
{
    match leading_modifier(lower) {
        Some((modifier, length)) => {
            if 0 < length <= lower.len() {
                lemma_strip_counting(lower.skip(length), with_modifier(m, modifier));
            }
        },
        None => {},
    }
}

proof fn lemma_trim_end_last(s: Seq<char>)
    ensures
        trim_end_of(s).len() > 0 ==> !white(trim_end_of(s).last()),
    decreases s.len(),
{
    if s.len() > 0 && white(s.last()) {
        lemma_trim_end_last(s.drop_last());
    }
}

spec fn trim_end_of(s: Seq<char>) -> Seq<char> {
    crate::strings::trim_end(s)
}

proof fn lemma_trim_visible(s: Seq<char>)
    requires
        s.len() > 0,
        !white(s[0]),
        !white(s.last()),
    ensures
        trim(s) == s,
{
}

proof fn lemma_leading(rest: Seq<char>)
    ensures
        leading_modifier("c-"@ + rest) == Some((ChordModifier::Control, 2int)),
        leading_modifier("m-"@ + rest) == Some((ChordModifier::Alt, 2int)),
        leading_modifier("s-"@ + rest) == Some((ChordModifier::Shift, 2int)),
        ("c-"@ + rest).skip(2) == rest,
        ("m-"@ + rest).skip(2) == rest,
        ("s-"@ + rest).skip(2) == rest,
{
    reveal_strlit("c-");
    reveal_strlit("ctrl-");
    reveal_strlit("m-");
    reveal_strlit("alt-");
    reveal_strlit("s-");
    let c = "c-"@ + rest;
    let m = "m-"@ + rest;
    let s = "s-"@ + rest;
    assert(c.take(2) == "c-"@);
    assert(m.take(2) == "m-"@);
    assert(s.take(2) == "s-"@);
    assert(m.take(2)[0] != "c-"@[0]);
    assert(s.take(2)[0] != "c-"@[0]);
    assert(s.take(2)[0] != "m-"@[0]);
    assert(m.len() >= 5 ==> m.take(5)[0] == 'm' && "ctrl-"@[0] == 'c');
    assert(s.len() >= 5 ==> s.take(5)[0] == 's' && "ctrl-"@[0] == 'c');
    assert(s.len() >= 4 ==> s.take(4)[0] == 's' && "alt-"@[0] == 'a');
    assert(c.skip(2) == rest);
    assert(m.skip(2) == rest);
    assert(s.skip(2) == rest);
}

/// The lower-cased name of a key that a parsed chord can have, other than a function key.
spec fn plain_name(code: KeyCode) -> Seq<char> {
    match code {
        KeyCode::Char(c) => if c == ' ' {
            "space"@
        } else {
            seq![c]
        },
        KeyCode::Tab => "tab"@,
        KeyCode::Enter => "enter"@,
        _ => "esc"@,
    }
}

spec fn plain_code(code: KeyCode) -> bool {
    match code {
        KeyCode::Char(c) => c == ' ' || (c != 'f' && !white(c) && ascii_lower(c) == c),
        KeyCode::Tab => true,
        KeyCode::Enter => true,
        KeyCode::Esc => true,
        _ => false,
    }
}

proof fn lemma_plain_name(code: KeyCode)
    requires
        plain_code(code),
    ensures
        named_key(plain_name(code)) == Some(code),
        leading_modifier(plain_name(code)) is None,
        ascii_lower_text(key_name(code)) == plain_name(code),
        key_name(code).len() > 0,
        !white(key_name(code)[0]),
        !white(key_name(code).last()),
{
    reveal_strlit("space");
    reveal_strlit("Space");
    reveal_strlit("tab");
    reveal_strlit("Tab");
    reveal_strlit("enter");
    reveal_strlit("Enter");
    reveal_strlit("return");
    reveal_strlit("esc");
    reveal_strlit("Esc");
    reveal_strlit("escape");
    reveal_strlit("c-");
    reveal_strlit("ctrl-");
    reveal_strlit("m-");
    reveal_strlit("alt-");
    reveal_strlit("s-");
    reveal_strlit("shift-");
    let name = plain_name(code);
    assert(ascii_lower_text(key_name(code)) =~= name);
    assert(name.len() >= 2 ==> name.take(2)[1] == name[1]);
    assert(name.len() >= 4 ==> name.take(4)[3] == name[3]);
    assert(name.len() >= 5 ==> name.take(5)[4] == name[4]);
    assert(name != "space"@ ==> name.len() < 6);
    if code is Tab {
        assert("tab"@[0] != "space"@[0]);
    } else if code is Enter {
        assert("enter"@[0] != "space"@[0]);
    } else if code is Esc {
        assert("esc"@.len() != "space"@.len());
        assert("esc"@.len() != "enter"@.len());
        assert("esc"@[0] != "tab"@[0]);
    } else {
        assert("space"@.len() == 5);
    }
}

/// Reading a label gives back the chord it was made for, for every chord that a spelling stands for
/// but those of function keys, whose labels are no spellings.
pub proof fn law_label_reads_back(text: Seq<char>, chord: KeyChord)
    requires
        parsed_chord(text) == Some(chord),
        !(chord.code is F),
    ensures
        parsed_chord(chord_label(chord)) == Some(chord),
{
    let source = ascii_lower_text(trim(text));
    lemma_strip_is_suffix(source, KeyModifiers::spec_none());
    lemma_strip_counting(source, KeyModifiers::spec_none());
    lemma_trim_end_last(crate::strings::trim_start(text));
    let stripped = strip_modifiers(source, KeyModifiers::spec_none()).1;
    if chord.code is Char && chord.code != KeyCode::Char(' ') {
        assert(stripped.len() == 1);
        assert(stripped[0] == source.last());
        assert(source.last() == ascii_lower(trim(text).last()));
    }
    assert(plain_code(chord.code)) by {
        reveal_strlit("space");
    }
    lemma_plain_name(chord.code);
    let name = plain_name(chord.code);
    let m = chord.modifiers;
    reveal_strlit("C-");
    reveal_strlit("M-");
    reveal_strlit("S-");
    let label = chord_label(chord);
    lemma_trim_visible(label);
    lemma_strip_label(m, name);
    assert(ascii_lower_text(label) =~= label_start(m) + name) by {
        reveal_strlit("c-");
        reveal_strlit("m-");
        reveal_strlit("s-");
    }
}

/// The lower-cased modifier names of a label.
spec fn label_start(m: KeyModifiers) -> Seq<char> {
    (if m.control {
        "c-"@
    } else {
        Seq::empty()
    }) + (if m.alt {
        "m-"@
    } else {
        Seq::empty()
    }) + (if m.shift {
        "s-"@
    } else {
        Seq::empty()
    })
}

proof fn lemma_strip_label(m: KeyModifiers, name: Seq<char>)
    requires
        m == counting_modifiers(m),
        leading_modifier(name) is None,
    ensures
        strip_modifiers(label_start(m) + name, KeyModifiers::spec_none()) == (m, name),
{
    let none = Seq::<char>::empty();
    let start = KeyModifiers::spec_none();
    let s = if m.shift {
        "s-"@ + name
    } else {
        name
    };
    let a = if m.alt {
        "m-"@ + s
    } else {
        s
    };
    let c = if m.control {
        "c-"@ + a
    } else {
        a
    };
    assert(label_start(m) + name =~= c);
    let m1 = KeyModifiers { control: m.control, ..start };
    let m2 = KeyModifiers { alt: m.alt, ..m1 };
    lemma_leading(a);
    lemma_leading(s);
    lemma_leading(name);
    assert("c-"@.len() == 2 && "m-"@.len() == 2 && "s-"@.len() == 2) by {
        reveal_strlit("c-");
        reveal_strlit("m-");
        reveal_strlit("s-");
    }
    assert(strip_modifiers(c, start) == strip_modifiers(a, m1));
    assert(strip_modifiers(a, m1) == strip_modifiers(s, m2));
    assert(strip_modifiers(s, m2) == strip_modifiers(name, m));
    assert(strip_modifiers(name, m) == (m, name));
}

/// Moving the focus forward and back again, or back and forward again, leaves it where it was.
pub proof fn law_cycling_back_restores_the_focus(panes: Seq<Pane>, at: int, forward: bool)
    requires
        distinct_ids(panes),
        0 <= at < panes.len(),
    ensures
        cycled_focus(
            panes,
            cycled_focus(panes, Some(panes[at].id), forward),
            !forward,
        ) == Some(panes[at].id),
{
    if panes.len() >= 2 {
        lemma_pane_position(panes, panes[at].id, 0);
        lemma_round(at, panes.len() as int);
        let next = if forward {
            (at + 1) % panes.len() as int
        } else {
            (at + panes.len() - 1) % panes.len() as int
        };
        lemma_pane_position(panes, panes[next].id, 0);
        lemma_round(next, panes.len() as int);
    }
}

/// While panes remain, removing the focused one leaves the focus on one that is still there.
pub proof fn law_removal_keeps_the_focus_on_a_pane(panes: Seq<Pane>, at: int)
    requires
        0 <= at < panes.len(),
        panes.len() > 1,
    ensures
        ({
            let rest = panes.remove(at);
            focus_after_removal(rest, at) matches Some(id) && pane_position(rest, id) is Some
        }),
{
    let rest = panes.remove(at);
    let id = if at < rest.len() {
        rest[at].id
    } else {
        rest.last().id
    };
    lemma_pane_position(rest, id, 0);
    if at < rest.len() {
        assert(rest[at].id == id);
    } else {
        assert(rest[rest.len() - 1].id == id);
    }
}

/// Numbers that were given out after one another keep the panes apart.
pub proof fn law_fresh_pane_keeps_ids_distinct(state: MuxState, pane: Pane)
    requires
        distinct_ids(state.panes@),
        forall|i: int| 0 <= i < state.panes@.len() ==> (#[trigger] state.panes@[i]).id < state.next_id,
        pane.id == state.next_id,
    ensures
        distinct_ids(state.panes@.push(pane)),
{
}

/// Moving forward puts the focus on the pane right behind the focused one, and from the last pane on
/// the first; moving back puts it on the pane right in front, and from the first pane on the last.
pub proof fn law_forward_is_the_next_position(panes: Seq<Pane>, at: int)
    requires
        distinct_ids(panes),
        0 <= at < panes.len(),
    ensures
        at + 1 < panes.len() ==> cycled_focus(panes, Some(panes[at].id), true) == Some(
            panes[at + 1].id,
        ),
        cycled_focus(panes, Some(panes.last().id), true) == Some(panes.first().id),
        at > 0 ==> cycled_focus(panes, Some(panes[at].id), false) == Some(panes[at - 1].id),
        cycled_focus(panes, Some(panes.first().id), false) == Some(panes.last().id),
{
    let last = panes.len() - 1;
    lemma_pane_position(panes, panes[at].id, 0);
    lemma_pane_position(panes, panes[0].id, 0);
    lemma_pane_position(panes, panes[last].id, 0);
    lemma_round(at, panes.len() as int);
    lemma_round(0, panes.len() as int);
    lemma_round(last, panes.len() as int);
}

/// The letter that a command is known by, behind the prefix.
pub open spec fn command_letter(command: PrefixCommand) -> Option<char> {
    match command {
        PrefixCommand::Detach => Some('d'),
        PrefixCommand::NextPane => Some('n'),
        PrefixCommand::PreviousPane => Some('p'),
        PrefixCommand::KillPane => Some('x'),
        PrefixCommand::PaneList => Some('w'),
        PrefixCommand::Chat => Some('c'),
        PrefixCommand::Scratchpad => Some('e'),
        PrefixCommand::Terminal => Some('t'),
        PrefixCommand::Snippets => Some('s'),
        PrefixCommand::Update => Some('u'),
        PrefixCommand::Quit => Some('q'),
        _ => None,
    }
}

/// A command with a letter is given by that letter, and by nothing else.
pub proof fn law_commands_are_given_by_their_letters(
    key: KeyEvent,
    prefix: KeyChord,
    command: PrefixCommand,
)
    requires
        !prefix.is_pressed(key),
    ensures
        command_letter(command) matches Some(letter) ==> (prefix_command(key, prefix) == Some(command)
            <==> key.code == KeyCode::Char(letter)),
{
}

/// The commands without a letter: a digit selects a pane by its number, help and the list of items are
/// asked for with the control key, help also with the key that some terminals send for it, and escape
/// gives up. The prefix itself is taken as it is, whatever its key would mean.
pub proof fn law_commands_without_a_letter(key: KeyEvent, prefix: KeyChord, number: usize)
    ensures
        prefix.is_pressed(key) <==> prefix_command(key, prefix) == Some(PrefixCommand::Literal),
        !prefix.is_pressed(key) ==> {
            &&& prefix_command(key, prefix) == Some(PrefixCommand::SelectIndex(number)) <==> number < 10
                && (key.code matches KeyCode::Char(c) && c as u32 == 48 + number)
            &&& prefix_command(key, prefix) == Some(PrefixCommand::Help) <==> key.code
                == KeyCode::Backspace || (key.modifiers.control && (key.code == KeyCode::Char('h')
                || key.code == KeyCode::Char('H')))
            &&& prefix_command(key, prefix) == Some(PrefixCommand::Github) <==> key.modifiers.control
                && (key.code == KeyCode::Char('g') || key.code == KeyCode::Char('G'))
            &&& prefix_command(key, prefix) == Some(PrefixCommand::Cancel) <==> key.code == KeyCode::Esc
        },
{
}

/// A chord is pressed with exactly its own control, alt and shift keys, whatever else is held; and a
/// letter counts in both cases.
pub proof fn law_chords_need_their_modifiers(chord: KeyChord, key: KeyEvent, other: KeyEvent)
    requires
        chord.is_pressed(key),
    ensures
        key.modifiers.control == chord.modifiers.control,
        key.modifiers.alt == chord.modifiers.alt,
        key.modifiers.shift == chord.modifiers.shift,
        other.code == key.code && other.modifiers.control == key.modifiers.control
            && other.modifiers.alt == key.modifiers.alt && other.modifiers.shift == key.modifiers.shift
            ==> chord.is_pressed(other),
        !(key.code is Char) ==> key.code == chord.code,
        key.code matches KeyCode::Char(c) ==> chord.code matches KeyCode::Char(own) && ascii_lower(own)
            == ascii_lower(c),
{
}

/// Each modifier is read by its short name and by its long one, before what follows.
pub proof fn law_modifiers_are_read_by_name(rest: Seq<char>, m: KeyModifiers)
    ensures
        strip_modifiers("c-"@ + rest, m) == strip_modifiers(rest, KeyModifiers { control: true, ..m }),
        strip_modifiers("ctrl-"@ + rest, m) == strip_modifiers(
            rest,
            KeyModifiers { control: true, ..m },
        ),
        strip_modifiers("m-"@ + rest, m) == strip_modifiers(rest, KeyModifiers { alt: true, ..m }),
        strip_modifiers("alt-"@ + rest, m) == strip_modifiers(rest, KeyModifiers { alt: true, ..m }),
        strip_modifiers("s-"@ + rest, m) == strip_modifiers(rest, KeyModifiers { shift: true, ..m }),
        strip_modifiers("shift-"@ + rest, m) == strip_modifiers(rest, KeyModifiers { shift: true, ..m }),
{
    reveal_strlit("c-");
    reveal_strlit("ctrl-");
    reveal_strlit("m-");
    reveal_strlit("alt-");
    reveal_strlit("s-");
    reveal_strlit("shift-");
    lemma_text_behind_a_name("c-"@, rest);
    lemma_text_behind_a_name("ctrl-"@, rest);
    lemma_text_behind_a_name("m-"@, rest);
    lemma_text_behind_a_name("alt-"@, rest);
    lemma_text_behind_a_name("s-"@, rest);
    lemma_text_behind_a_name("shift-"@, rest);
    lemma_no_other_start("ctrl-"@ + rest, "c-"@, 1);
    lemma_no_other_start("m-"@ + rest, "c-"@, 0);
    lemma_no_other_start("m-"@ + rest, "ctrl-"@, 0);
    lemma_no_other_start("alt-"@ + rest, "c-"@, 0);
    lemma_no_other_start("alt-"@ + rest, "ctrl-"@, 0);
    lemma_no_other_start("alt-"@ + rest, "m-"@, 0);
    lemma_no_other_start("s-"@ + rest, "c-"@, 0);
    lemma_no_other_start("s-"@ + rest, "ctrl-"@, 0);
    lemma_no_other_start("s-"@ + rest, "m-"@, 0);
    lemma_no_other_start("s-"@ + rest, "alt-"@, 0);
    lemma_no_other_start("shift-"@ + rest, "c-"@, 0);
    lemma_no_other_start("shift-"@ + rest, "ctrl-"@, 0);
    lemma_no_other_start("shift-"@ + rest, "m-"@, 0);
    lemma_no_other_start("shift-"@ + rest, "alt-"@, 0);
    lemma_no_other_start("shift-"@ + rest, "s-"@, 1);
}

proof fn lemma_text_behind_a_name(name: Seq<char>, rest: Seq<char>)
    ensures
        has_prefix(name + rest, name),
        (name + rest).skip(name.len() as int) == rest,
{
    assert((name + rest).take(name.len() as int) =~= name);
    assert((name + rest).skip(name.len() as int) =~= rest);
}

proof fn lemma_no_other_start(text: Seq<char>, name: Seq<char>, at: int)
    requires
        0 <= at < name.len(),
        at < text.len(),
        text[at] != name[at],
    ensures
        !has_prefix(text, name),
{
    if has_prefix(text, name) {
        assert(text.take(name.len() as int)[at] == text[at]);
    }
}

/// A label names the modifiers of its chord, each exactly where it is one, in one order, and then the
/// key.
pub proof fn law_labels_name_the_modifiers(chord: KeyChord)
    ensures
        chord.modifiers.control ==> chord_label(chord) == "C-"@ + chord_label(
            KeyChord {
                modifiers: KeyModifiers { control: false, ..chord.modifiers },
                ..chord
            },
        ),
        !chord.modifiers.control && chord.modifiers.alt ==> chord_label(chord) == "M-"@ + chord_label(
            KeyChord { modifiers: KeyModifiers { alt: false, ..chord.modifiers }, ..chord },
        ),
        !chord.modifiers.control && !chord.modifiers.alt && chord.modifiers.shift ==> chord_label(chord)
            == "S-"@ + key_name(chord.code),
        !chord.modifiers.control && !chord.modifiers.alt && !chord.modifiers.shift ==> chord_label(
            chord,
        ) == key_name(chord.code),
{
    let shorter = KeyChord { modifiers: KeyModifiers { control: false, ..chord.modifiers }, ..chord };
    let last = KeyChord { modifiers: KeyModifiers { alt: false, ..chord.modifiers }, ..chord };
    if chord.modifiers.control {
        assert(chord_label(chord) =~= "C-"@ + chord_label(shorter));
    } else if chord.modifiers.alt {
        assert(chord_label(chord) =~= "M-"@ + chord_label(last));
    } else {
        assert(chord_label(chord) =~= (if chord.modifiers.shift {
            "S-"@
        } else {
            Seq::empty()
        }) + key_name(chord.code));
        assert(Seq::<char>::empty() + key_name(chord.code) =~= key_name(chord.code));
    }
}

/// When a pane goes, the focus goes to the one that stood behind it, or else to the one before it.
pub proof fn law_the_focus_goes_to_the_neighbour(panes: Seq<Pane>, at: int)
    requires
        0 <= at < panes.len(),
    ensures
        at + 1 < panes.len() ==> focus_after_removal(panes.remove(at), at) == Some(panes[at + 1].id),
        at + 1 == panes.len() && at > 0 ==> focus_after_removal(panes.remove(at), at) == Some(
            panes[at - 1].id,
        ),
        panes.len() == 1 ==> focus_after_removal(panes.remove(at), at) is None,
{
}

/// Exactly the running panes are counted, without the one that is left out.
pub proof fn law_running_panes_are_counted(panes: Seq<Pane>, skip: Option<PaneId>)
    ensures
        running_panes(panes, skip) == panes.filter(
            |p: Pane| p.status == PaneStatus::Running && skip != Some(p.id),
        ).len(),
    decreases panes.len(),
{
    reveal(Seq::filter);
    if panes.len() > 0 {
        law_running_panes_are_counted(panes.drop_last(), skip);
    }
}

/// A pane that is found to have ended is shown so, with its code, and waits for nothing; all others stay
/// as they were.
pub proof fn law_ended_panes_are_reaped(before: Pane, ended: Option<u32>, after: Pane)
    requires
        reaped(before, ended, after),
    ensures
        before.status == PaneStatus::Running && ended is Some ==> after.status == PaneStatus::Exited(ended)
            && !after.waiting() && !after.cycle.working && after.title == before.title && after.id
            == before.id,
        before.status != PaneStatus::Running || ended is None ==> after == before,
{
}

/// In the help only `e` opens a page, and in the list of items only `i`; escape gives up both.
pub proof fn law_second_keys_are_given_by_their_letters(key: KeyEvent)
    ensures
        help_command(key) == Some(HelpCommand::Scratchpad) <==> key.code == KeyCode::Char('e'),
        help_command(key) == Some(HelpCommand::Cancel) <==> key.code == KeyCode::Esc,
        github_command(key) == Some(GithubCommand::Inspect) <==> key.code == KeyCode::Char('i'),
        github_command(key) == Some(GithubCommand::Cancel) <==> key.code == KeyCode::Esc,
{
}

/// The names of the keys that have one, in both forms, and the function keys by their number.
pub proof fn law_keys_are_read_by_name(number: nat, c: char)
    ensures
        named_key("space"@) == Some(KeyCode::Char(' ')),
        named_key("tab"@) == Some(KeyCode::Tab),
        named_key("enter"@) == Some(KeyCode::Enter) && named_key("return"@) == Some(KeyCode::Enter),
        named_key("esc"@) == Some(KeyCode::Esc) && named_key("escape"@) == Some(KeyCode::Esc),
        1 <= number <= 12 ==> named_key(seq!['f'] + decimal(number)) == Some(KeyCode::F(number as u8)),
        c != 'f' ==> named_key(seq![c]) == Some(KeyCode::Char(c)),
{
    reveal_strlit("space");
    reveal_strlit("tab");
    reveal_strlit("enter");
    reveal_strlit("return");
    reveal_strlit("esc");
    reveal_strlit("escape");
    assert(seq![c].len() == 1);
    let name = seq!['f'] + decimal(number);
    assert(name[0] == 'f');
    assert(name.skip(1) =~= decimal(number));
    assert("space"@[0] == 's' && "tab"@[0] == 't' && "enter"@[0] == 'e' && "return"@[0] == 'r'
        && "esc"@[0] == 'e' && "escape"@[0] == 'e');
    assert("enter"@.len() == 5 && "return"@.len() == 6 && "esc"@.len() == 3 && "escape"@.len() == 6
        && "space"@.len() == 5 && "tab"@.len() == 3);
    if 1 <= number <= 12 {
        crate::strings::law_parse_reads_decimal(number, 255);
    }
}

} // verus!
