//! Encodes decoded input events back into the bytes a terminal would have sent.

use crate::input::{
    KeyCode, KeyEvent, KeyModifiers, MouseButton, MouseEvent, MouseEventKind,
    MouseProtocolEncoding, MouseProtocolMode,
};
use crate::strings::to_ascii_lower;
use vstd::prelude::*;
use vstd::utf8::encode_utf8;

verus! {

/// The ASCII bytes of the decimal numeral of a number.
pub open spec fn decimal_bytes(n: nat) -> Seq<u8>
    decreases n,
{
    if n < 10 {
        seq![(48 + n) as u8]
    } else {
        decimal_bytes(n / 10).push((48 + n % 10) as u8)
    }
}

/// Appends the decimal numeral of a number.
pub fn push_decimal(bytes: &mut Vec<u8>, n: u32)
    ensures
        final(bytes)@ == old(bytes)@ + decimal_bytes(n as nat),
    decreases n,
{
    if n >= 10 {
        push_decimal(bytes, n / 10);
    }
    bytes.push(48 + (n % 10) as u8);
}

/// The UTF-8 bytes of one character.
pub open spec fn char_utf8(c: char) -> Seq<u8> {
    encode_utf8(seq![c])
}

/// The UTF-8 bytes of one character.
pub fn char_bytes(c: char) -> (bytes: Vec<u8>)
    ensures
        bytes@ == char_utf8(c),
{
    let mut text = String::new();
    text.push(c);
    assert(text@ == seq![c]);
    text.as_str().as_bytes_vec()
}

/// The bytes of `CSI 1 ; parameter final`, the form of a modified cursor key.
pub open spec fn modified_cursor(parameter: u8, final_byte: u8) -> Seq<u8> {
    seq![0x1bu8, 0x5b, 0x31, 0x3b] + decimal_bytes(parameter as nat) + seq![final_byte]
}

/// The bytes of `CSI number ~`, or of `CSI number ; parameter ~` where a modifier is held.
pub open spec fn tilde(number: u8, parameter: Option<u8>) -> Seq<u8> {
    match parameter {
        Some(p) => seq![0x1bu8, 0x5b] + decimal_bytes(number as nat) + seq![0x3bu8]
            + decimal_bytes(p as nat) + seq![0x7eu8],
        None => seq![0x1bu8, 0x5b] + decimal_bytes(number as nat) + seq![0x7eu8],
    }
}

/// The bytes of an unmodified cursor key: `SS3 final` in application mode, else `CSI final`.
pub open spec fn plain_cursor(final_byte: u8, application_cursor: bool) -> Seq<u8> {
    seq![0x1bu8, if application_cursor { 0x4fu8 } else { 0x5bu8 }, final_byte]
}

/// The C0 control byte of `Ctrl-<char>`, where there is one.
pub open spec fn control_code(c: char) -> Option<u8> {
    if 'a' <= c <= 'z' {
        Some((c as u32 - 96) as u8)
    } else if 'A' <= c <= 'Z' {
        Some((c as u32 - 64) as u8)
    } else if c == ' ' || c == '@' {
        Some(0u8)
    } else if c == '[' {
        Some(0x1bu8)
    } else if c == '\\' {
        Some(0x1cu8)
    } else if c == ']' {
        Some(0x1du8)
    } else if c == '^' {
        Some(0x1eu8)
    } else if c == '_' || c == '/' {
        Some(0x1fu8)
    } else if c == '?' {
        Some(0x7fu8)
    } else {
        None
    }
}

/// xterm's modifier parameter: one more than the sum of 1 for Shift, 2 for Alt and 4 for Control,
/// and absent where none of them is held.
pub open spec fn modifier_code(m: KeyModifiers) -> Option<u8> {
    if m.shift || m.alt || m.control {
        Some(
            (1 + (if m.shift { 1int } else { 0 }) + (if m.alt { 2int } else { 0 }) + (if m.control {
                4int
            } else {
                0
            })) as u8,
        )
    } else {
        None
    }
}

/// The number of a function key in `CSI number ~`. xterm skips 16 and 22.
pub open spec fn function_number(n: u8) -> Option<u8> {
    if 1 <= n <= 5 {
        Some((10 + n) as u8)
    } else if 6 <= n <= 10 {
        Some((11 + n) as u8)
    } else if 11 <= n <= 12 {
        Some((12 + n) as u8)
    } else {
        None
    }
}

/// The bytes of a cursor key with its modifiers.
pub open spec fn cursor_bytes(final_byte: u8, m: KeyModifiers, application_cursor: bool) -> Seq<
    u8,
> {
    match modifier_code(m) {
        Some(parameter) => modified_cursor(parameter, final_byte),
        None => plain_cursor(final_byte, application_cursor),
    }
}

/// The bytes of a function key with its modifiers: F1 to F4 unmodified are `SS3 P` to `SS3 S`.
pub open spec fn function_bytes(n: u8, m: KeyModifiers) -> Option<Seq<u8>> {
    if modifier_code(m) is None && 1 <= n <= 4 {
        Some(seq![0x1bu8, 0x4f, (0x4f + n) as u8])
    } else {
        match function_number(n) {
            Some(number) => Some(tilde(number, modifier_code(m))),
            None => None,
        }
    }
}

/// The bytes of a key before the escape prefix that Alt adds.
pub open spec fn base_bytes(key: KeyEvent, application_cursor: bool) -> Option<Seq<u8>> {
    let m = key.modifiers;
    match key.code {
        KeyCode::Char(c) => if m.control {
            match control_code(c) {
                Some(byte) => Some(seq![byte]),
                None => None,
            }
        } else {
            Some(char_utf8(c))
        },
        KeyCode::Enter => Some(seq![0x0du8]),
        KeyCode::Tab => if m.shift {
            Some(seq![0x1bu8, 0x5b, 0x5a])
        } else {
            Some(seq![0x09u8])
        },
        KeyCode::BackTab => Some(seq![0x1bu8, 0x5b, 0x5a]),
        KeyCode::Backspace => Some(seq![0x7fu8]),
        KeyCode::Esc => Some(seq![0x1bu8]),
        KeyCode::Up => Some(cursor_bytes(0x41, m, application_cursor)),
        KeyCode::Down => Some(cursor_bytes(0x42, m, application_cursor)),
        KeyCode::Right => Some(cursor_bytes(0x43, m, application_cursor)),
        KeyCode::Left => Some(cursor_bytes(0x44, m, application_cursor)),
        KeyCode::Home => Some(cursor_bytes(0x48, m, application_cursor)),
        KeyCode::End => Some(cursor_bytes(0x46, m, application_cursor)),
        KeyCode::Insert => Some(tilde(2, modifier_code(m))),
        KeyCode::Delete => Some(tilde(3, modifier_code(m))),
        KeyCode::PageUp => Some(tilde(5, modifier_code(m))),
        KeyCode::PageDown => Some(tilde(6, modifier_code(m))),
        KeyCode::F(n) => function_bytes(n, m),
        KeyCode::Null => Some(seq![0u8]),
        KeyCode::Other => None,
    }
}

/// Whether Alt, Meta or Super puts an escape byte in front of a key's bytes: always for a
/// character, else where the bytes are no escape sequence already.
pub open spec fn takes_escape_prefix(key: KeyEvent, base: Seq<u8>) -> bool {
    key.modifiers.escaping() && (key.code is Char || !(base.len() > 0 && base[0] == 0x1b))
}

/// The bytes a terminal sends for a key, where it sends any.
pub open spec fn key_bytes(key: KeyEvent, application_cursor: bool) -> Option<Seq<u8>> {
    match base_bytes(key, application_cursor) {
        Some(base) => Some(
            if takes_escape_prefix(key, base) {
                seq![0x1bu8] + base
            } else {
                base
            },
        ),
        None => None,
    }
}

/// The bytes put in front of bracketed pastes, `ESC [ 2 0 0 ~`.
pub open spec fn paste_start() -> Seq<u8> {
    seq![0x1bu8, 0x5b, 0x32, 0x30, 0x30, 0x7e]
}

/// The bytes put behind bracketed pastes, `ESC [ 2 0 1 ~`.
pub open spec fn paste_end() -> Seq<u8> {
    seq![0x1bu8, 0x5b, 0x32, 0x30, 0x31, 0x7e]
}

/// The bytes of a paste. An empty one is Ctrl-V, which asks the child for the clipboard itself.
pub open spec fn paste_bytes(text: Seq<char>, bracketed: bool) -> Seq<u8> {
    if text.len() == 0 {
        seq![0x16u8]
    } else if bracketed {
        paste_start() + encode_utf8(text) + paste_end()
    } else {
        encode_utf8(text)
    }
}

/// The number of a mouse button.
pub open spec fn button_code(button: MouseButton) -> int {
    match button {
        MouseButton::Left => 0,
        MouseButton::Middle => 1,
        MouseButton::Right => 2,
    }
}

/// The modifier bits of a mouse event: 4 for Shift, 8 for Alt, Meta or Super, 16 for Control.
pub open spec fn mouse_modifiers(m: KeyModifiers) -> int {
    (if m.shift { 4int } else { 0 }) + (if m.escaping() { 8int } else { 0 }) + (if m.control {
        16int
    } else {
        0
    })
}

/// The event number of a mouse event without modifiers, where the protocol mode reports it.
pub open spec fn mouse_event_code(kind: MouseEventKind, mode: MouseProtocolMode) -> Option<int> {
    match kind {
        MouseEventKind::Down(button) => Some(button_code(button)),
        MouseEventKind::Up(button) => if mode != MouseProtocolMode::Press {
            Some(button_code(button))
        } else {
            None
        },
        MouseEventKind::Drag(button) => if mode == MouseProtocolMode::ButtonMotion || mode
            == MouseProtocolMode::AnyMotion {
            Some(button_code(button) + 32)
        } else {
            None
        },
        MouseEventKind::Moved => if mode == MouseProtocolMode::AnyMotion {
            Some(35int)
        } else {
            None
        },
        MouseEventKind::ScrollUp => Some(64int),
        MouseEventKind::ScrollDown => Some(65int),
        MouseEventKind::ScrollLeft => Some(66int),
        MouseEventKind::ScrollRight => Some(67int),
    }
}

/// The bytes of a mouse report at one-based coordinates, where the mode and the encoding can
/// express it. The default encoding reaches 223 columns and rows; the UTF-8 encoding cannot write
/// a coordinate that falls on a surrogate code point.
pub open spec fn mouse_bytes(
    event: MouseEvent,
    coordinates: (u16, u16),
    mode: MouseProtocolMode,
    encoding: MouseProtocolEncoding,
) -> Option<Seq<u8>> {
    let release = event.kind is Up;
    let bits = mouse_modifiers(event.modifiers);
    let (column, row) = coordinates;
    match mouse_event_code(event.kind, mode) {
        None => None,
        Some(code) => {
            let legacy = if release {
                3 + bits
            } else {
                code + bits
            };
            match encoding {
                MouseProtocolEncoding::Sgr => Some(
                    seq![0x1bu8, 0x5b, 0x3c] + decimal_bytes((code + bits) as nat) + seq![0x3bu8]
                        + decimal_bytes(column as nat) + seq![0x3bu8] + decimal_bytes(row as nat)
                        + seq![if release { 0x6du8 } else { 0x4du8 }],
                ),
                MouseProtocolEncoding::Default => if column > 223 || row > 223 {
                    None
                } else {
                    Some(
                        seq![
                            0x1bu8,
                            0x5b,
                            0x4d,
                            (legacy + 32) as u8,
                            (column + 32) as u8,
                            (row + 32) as u8,
                        ],
                    )
                },
                MouseProtocolEncoding::Utf8 => if scalar(column + 32) && scalar(row + 32) {
                    Some(
                        seq![0x1bu8, 0x5b, 0x4d] + char_utf8((legacy + 32) as char) + char_utf8(
                            (column + 32) as char,
                        ) + char_utf8((row + 32) as char),
                    )
                } else {
                    None
                },
            }
        },
    }
}

/// Whether a number is a Unicode scalar value.
pub open spec fn scalar(n: int) -> bool {
    0 <= n <= 0xd7ff || 0xe000 <= n <= 0x10ffff
}

/// `char::from_u32` gives the character of a scalar value, and nothing for any other number.
#[verifier::external_body]
fn char_of(n: u32) -> (c: Option<char>)
    ensures
        c == (if scalar(n as int) {
            Some(n as char)
        } else {
            None
        }),
{
    char::from_u32(n)
}

/// Encodes a decoded key event back into the bytes a terminal would have sent.
/// `application_cursor` selects between the normal and the application cursor-key encodings.
pub fn encode(key: &KeyEvent, application_cursor: bool) -> (bytes: Option<Vec<u8>>)
    ensures
        match bytes {
            Some(b) => key_bytes(*key, application_cursor) == Some(b@),
            None => key_bytes(*key, application_cursor) is None,
        },
{
    let m = key.modifiers;
    let base: Vec<u8> = match key.code {
        KeyCode::Char(c) => {
            let bytes = if m.control {
                match control_byte(c) {
                    Some(byte) => vec![byte],
                    None => {
                        return None;
                    },
                }
            } else {
                char_bytes(c)
            };
            if m.escapes() {
                return Some(escaped(bytes));
            }
            return Some(bytes);
        },
        KeyCode::Enter => vec![0x0d],
        KeyCode::Tab => {
            if m.shift {
                vec![0x1b, 0x5b, 0x5a]
            } else {
                vec![0x09]
            }
        },
        KeyCode::BackTab => vec![0x1b, 0x5b, 0x5a],
        // DEL rather than BS: this is what modern terminals send and what readline expects.
        KeyCode::Backspace => vec![0x7f],
        KeyCode::Esc => vec![0x1b],
        KeyCode::Up => cursor_key(0x41, m, application_cursor),
        KeyCode::Down => cursor_key(0x42, m, application_cursor),
        KeyCode::Right => cursor_key(0x43, m, application_cursor),
        KeyCode::Left => cursor_key(0x44, m, application_cursor),
        KeyCode::Home => cursor_key(0x48, m, application_cursor),
        KeyCode::End => cursor_key(0x46, m, application_cursor),
        KeyCode::Insert => tilde_key(2, m),
        KeyCode::Delete => tilde_key(3, m),
        KeyCode::PageUp => tilde_key(5, m),
        KeyCode::PageDown => tilde_key(6, m),
        KeyCode::F(n) => match function_key(n, m) {
            Some(bytes) => bytes,
            None => {
                return None;
            },
        },
        KeyCode::Null => vec![0],
        KeyCode::Other => {
            return None;
        },
    };
    assert(base_bytes(*key, application_cursor)->0 =~= base@);
    if m.escapes() && !(base.len() > 0 && base[0] == 0x1b) {
        return Some(escaped(base));
    }
    Some(base)
}

/// Puts an escape byte in front.
pub fn escaped(bytes: Vec<u8>) -> (r: Vec<u8>)
    ensures
        r@ == seq![0x1bu8] + bytes@,
{
    let mut r: Vec<u8> = vec![0x1b];
    let mut tail = bytes;
    r.append(&mut tail);
    assert(r@ == seq![0x1bu8] + bytes@);
    r
}

/// Maps `Ctrl-<char>` to its C0 control byte. Returns `None` for combinations with no byte
/// representation.
fn control_byte(c: char) -> (byte: Option<u8>)
    ensures
        byte == control_code(c),
{
    let lower = to_ascii_lower(c);
    if 'a' <= lower && lower <= 'z' {
        Some(lower as u8 - 96)
    } else if lower == ' ' || lower == '@' {
        Some(0)
    } else if lower == '[' {
        Some(0x1b)
    } else if lower == '\\' {
        Some(0x1c)
    } else if lower == ']' {
        Some(0x1d)
    } else if lower == '^' {
        Some(0x1e)
    } else if lower == '_' || lower == '/' {
        Some(0x1f)
    } else if lower == '?' {
        Some(0x7f)
    } else {
        None
    }
}

/// The modifier parameter used by xterm.
fn modifier_param(m: KeyModifiers) -> (parameter: Option<u8>)
    ensures
        parameter == modifier_code(m),
{
    let mut mask: u8 = 0;
    if m.shift {
        mask = mask + 1;
    }
    if m.alt {
        mask = mask + 2;
    }
    if m.control {
        mask = mask + 4;
    }
    if mask == 0 {
        None
    } else {
        Some(mask + 1)
    }
}

/// `CSI 1 ; parameter final`.
pub(crate) fn modified_cursor_sequence(parameter: u8, final_byte: u8) -> (bytes: Vec<u8>)
    ensures
        bytes@ == modified_cursor(parameter, final_byte),
{
    let mut bytes: Vec<u8> = vec![0x1b, 0x5b, 0x31, 0x3b];
    push_decimal(&mut bytes, parameter as u32);
    bytes.push(final_byte);
    assert(bytes@ == modified_cursor(parameter, final_byte));
    bytes
}

/// `CSI number ~` or `CSI number ; parameter ~`.
pub(crate) fn tilde_sequence(number: u8, parameter: Option<u8>) -> (bytes: Vec<u8>)
    ensures
        bytes@ == tilde(number, parameter),
{
    let mut bytes: Vec<u8> = vec![0x1b, 0x5b];
    push_decimal(&mut bytes, number as u32);
    if let Some(p) = parameter {
        bytes.push(0x3b);
        push_decimal(&mut bytes, p as u32);
    }
    bytes.push(0x7e);
    assert(bytes@ == tilde(number, parameter));
    bytes
}

fn cursor_key(final_byte: u8, m: KeyModifiers, application_cursor: bool) -> (bytes: Vec<u8>)
    ensures
        bytes@ == cursor_bytes(final_byte, m, application_cursor),
{
    match modifier_param(m) {
        // Modified cursor keys always use the CSI form with a parameter.
        Some(parameter) => modified_cursor_sequence(parameter, final_byte),
        None => {
            let introducer: u8 = if application_cursor {
                0x4f
            } else {
                0x5b
            };
            let bytes: Vec<u8> = vec![0x1b, introducer, final_byte];
            assert(bytes@ == plain_cursor(final_byte, application_cursor));
            bytes
        },
    }
}

fn tilde_key(number: u8, m: KeyModifiers) -> (bytes: Vec<u8>)
    ensures
        bytes@ == tilde(number, modifier_code(m)),
{
    tilde_sequence(number, modifier_param(m))
}

fn function_key(n: u8, m: KeyModifiers) -> (bytes: Option<Vec<u8>>)
    ensures
        match bytes {
            Some(b) => function_bytes(n, m) == Some(b@),
            None => function_bytes(n, m) is None,
        },
{
    let parameter = modifier_param(m);
    if parameter.is_none() && 1 <= n && n <= 4 {
        let bytes: Vec<u8> = vec![0x1b, 0x4f, 0x4f + n];
        assert(bytes@ == seq![0x1bu8, 0x4f, (0x4f + n) as u8]);
        return Some(bytes);
    }
    match function_key_number(n) {
        Some(number) => Some(tilde_sequence(number, parameter)),
        None => None,
    }
}

fn function_key_number(n: u8) -> (number: Option<u8>)
    ensures
        number == function_number(n),
{
    match n {
        1 => Some(11),
        2 => Some(12),
        3 => Some(13),
        4 => Some(14),
        5 => Some(15),
        // 16 is deliberately skipped by the xterm scheme.
        6 => Some(17),
        7 => Some(18),
        8 => Some(19),
        9 => Some(20),
        10 => Some(21),
        // 22 is likewise skipped.
        11 => Some(23),
        12 => Some(24),
        _ => None,
    }
}

/// Wraps pasted text in bracketed-paste markers when the child has enabled the mode.
pub fn encode_paste(text: &str, bracketed: bool) -> (bytes: Vec<u8>)
    ensures
        bytes@ == paste_bytes(text@, bracketed),
{
    if text.is_empty() {
        let bytes: Vec<u8> = vec![0x16];
        assert(bytes@ == seq![0x16u8]);
        return bytes;
    }
    let mut content = text.as_bytes_vec();
    if !bracketed {
        return content;
    }
    let mut bytes: Vec<u8> = vec![0x1b, 0x5b, 0x32, 0x30, 0x30, 0x7e];
    let mut marker: Vec<u8> = vec![0x1b, 0x5b, 0x32, 0x30, 0x31, 0x7e];
    bytes.append(&mut content);
    bytes.append(&mut marker);
    assert(bytes@ == paste_start() + encode_utf8(text@) + paste_end());
    bytes
}

/// Encodes a mouse event at one-based coordinates for the protocol a child program selected.
pub fn encode_mouse(
    event: MouseEvent,
    coordinates: (u16, u16),
    mode: MouseProtocolMode,
    encoding: MouseProtocolEncoding,
) -> (bytes: Option<Vec<u8>>)
    ensures
        match bytes {
            Some(b) => mouse_bytes(event, coordinates, mode, encoding) == Some(b@),
            None => mouse_bytes(event, coordinates, mode, encoding) is None,
        },
{
    let (code, release): (u8, bool) = match event.kind {
        MouseEventKind::Down(button) => (mouse_button(button), false),
        MouseEventKind::Up(button) => {
            if mode == MouseProtocolMode::Press {
                return None;
            }
            (mouse_button(button), true)
        },
        MouseEventKind::Drag(button) => {
            if mode != MouseProtocolMode::ButtonMotion && mode != MouseProtocolMode::AnyMotion {
                return None;
            }
            (mouse_button(button) + 32, false)
        },
        MouseEventKind::Moved => {
            if mode != MouseProtocolMode::AnyMotion {
                return None;
            }
            (35, false)
        },
        MouseEventKind::ScrollUp => (64, false),
        MouseEventKind::ScrollDown => (65, false),
        MouseEventKind::ScrollLeft => (66, false),
        MouseEventKind::ScrollRight => (67, false),
    };
    let modifiers: u8 = mouse_modifier_bits(event.modifiers);
    let button: u8 = code + modifiers;
    let legacy: u8 = if release {
        3 + modifiers
    } else {
        button
    };
    let (column, row) = coordinates;
    match encoding {
        MouseProtocolEncoding::Sgr => {
            let mut bytes: Vec<u8> = vec![0x1b, 0x5b, 0x3c];
            push_decimal(&mut bytes, button as u32);
            bytes.push(0x3b);
            push_decimal(&mut bytes, column as u32);
            bytes.push(0x3b);
            push_decimal(&mut bytes, row as u32);
            bytes.push(
                if release {
                    0x6d
                } else {
                    0x4d
                },
            );
            assert(bytes@ =~= mouse_bytes(event, coordinates, mode, encoding)->0);
            Some(bytes)
        },
        MouseProtocolEncoding::Default => {
            if column > 223 || row > 223 {
                return None;
            }
            let bytes: Vec<u8> = vec![
                0x1b,
                0x5b,
                0x4d,
                legacy + 32,
                column as u8 + 32,
                row as u8 + 32,
            ];
            assert(bytes@ =~= mouse_bytes(event, coordinates, mode, encoding)->0);
            Some(bytes)
        },
        MouseProtocolEncoding::Utf8 => {
            let mut bytes: Vec<u8> = vec![0x1b, 0x5b, 0x4d];
            let mut first = char_bytes((legacy + 32) as char);
            let mut second = match char_of(column as u32 + 32) {
                Some(c) => char_bytes(c),
                None => {
                    return None;
                },
            };
            let mut third = match char_of(row as u32 + 32) {
                Some(c) => char_bytes(c),
                None => {
                    return None;
                },
            };
            bytes.append(&mut first);
            bytes.append(&mut second);
            bytes.append(&mut third);
            assert(bytes@ =~= mouse_bytes(event, coordinates, mode, encoding)->0);
            Some(bytes)
        },
    }
}

fn mouse_button(button: MouseButton) -> (code: u8)
    ensures
        code == button_code(button),
{
    match button {
        MouseButton::Left => 0,
        MouseButton::Middle => 1,
        MouseButton::Right => 2,
    }
}

fn mouse_modifier_bits(m: KeyModifiers) -> (bits: u8)
    ensures
        bits == mouse_modifiers(m),
{
    let mut bits: u8 = 0;
    if m.shift {
        bits = bits + 4;
    }
    if m.escapes() {
        bits = bits + 8;
    }
    if m.control {
        bits = bits + 16;
    }
    bits
}

/// Modified cursor keys do not depend on the cursor mode: application mode never wins over the
/// form that carries the modifiers.
pub proof fn law_modified_cursor_keys_ignore_cursor_mode(key: KeyEvent)
    requires
        modifier_code(key.modifiers) is Some,
    ensures
        key_bytes(key, true) == key_bytes(key, false),
{
}

/// Upper- and lower-case letters have the same control byte.
pub proof fn law_control_code_ignores_case(c: char)
    requires
        'A' <= c <= 'Z',
    ensures
        control_code(c) == control_code(crate::strings::ascii_lower(c)),
        control_code(c) is Some,
{
}

/// A nonempty bracketed paste is the unbracketed one between its two markers.
pub proof fn law_bracketed_paste_frames_the_text(text: Seq<char>)
    requires
        text.len() > 0,
    ensures
        paste_bytes(text, true) == paste_start() + paste_bytes(text, false) + paste_end(),
{
}

/// The key that a terminal means by the letter at the end of a cursor sequence.
pub open spec fn key_of_letter(letter: u8) -> Option<KeyCode> {
    if letter == 65 {
        Some(KeyCode::Up)
    } else if letter == 66 {
        Some(KeyCode::Down)
    } else if letter == 67 {
        Some(KeyCode::Right)
    } else if letter == 68 {
        Some(KeyCode::Left)
    } else if letter == 70 {
        Some(KeyCode::End)
    } else if letter == 72 {
        Some(KeyCode::Home)
    } else if 80 <= letter <= 83 {
        Some(KeyCode::F((letter - 79) as u8))
    } else {
        None
    }
}

/// The key that a terminal means by the number in front of a tilde.
pub open spec fn key_of_number(number: int) -> Option<KeyCode> {
    if number == 2 {
        Some(KeyCode::Insert)
    } else if number == 3 {
        Some(KeyCode::Delete)
    } else if number == 5 {
        Some(KeyCode::PageUp)
    } else if number == 6 {
        Some(KeyCode::PageDown)
    } else if 11 <= number <= 15 {
        Some(KeyCode::F((number - 10) as u8))
    } else if 17 <= number <= 21 {
        Some(KeyCode::F((number - 11) as u8))
    } else if 23 <= number <= 24 {
        Some(KeyCode::F((number - 12) as u8))
    } else {
        None
    }
}

/// The key that a terminal means by a single byte, other than a character.
pub open spec fn key_of_byte(byte: u8) -> Option<KeyCode> {
    if byte == 0 {
        Some(KeyCode::Null)
    } else if byte == 9 {
        Some(KeyCode::Tab)
    } else if byte == 13 {
        Some(KeyCode::Enter)
    } else if byte == 27 {
        Some(KeyCode::Esc)
    } else if byte == 127 {
        Some(KeyCode::Backspace)
    } else {
        None
    }
}

/// What a decimal digit stands for.
pub open spec fn digit_of(byte: u8) -> int {
    byte - 48
}

/// The key that a program reads from the bytes of a key that is no character, and the modifiers that
/// come with it: 1 for Shift, 2 for Alt, 4 for Control. This is how programs take a terminal's input
/// apart.
pub open spec fn key_read(bytes: Seq<u8>) -> Option<(KeyCode, int)> {
    let n = bytes.len();
    let code = if n == 1 {
        key_of_byte(bytes[0])
    } else if n < 3 || bytes[0] != 27 {
        None
    } else if n == 3 && bytes[1] == 91 && bytes[2] == 90 {
        Some(KeyCode::BackTab)
    } else if bytes.last() != 126 {
        key_of_letter(bytes.last())
    } else if bytes[3] == 126 || bytes[3] == 59 {
        key_of_number(digit_of(bytes[2]))
    } else {
        key_of_number(digit_of(bytes[2]) * 10 + digit_of(bytes[3]))
    };
    let modifiers = if n >= 6 && bytes[n - 3] == 59 {
        digit_of(bytes[n - 2]) - 1
    } else {
        0
    };
    match code {
        Some(key) => Some((key, modifiers)),
        None => None,
    }
}

/// Whether the bytes of a key carry its modifiers: those of the cursor, editing and function keys do.
pub open spec fn carries_modifiers(code: KeyCode) -> bool {
    !(code is Enter || code is Tab || code is BackTab || code is Backspace || code is Esc
        || code is Null)
}

/// A program reads the key back that was pressed, and the modifiers that were held, in either cursor
/// mode. Tab with Shift is read as the key for going back.
pub proof fn law_keys_read_back(key: KeyEvent, application_cursor: bool)
    requires
        !(key.code is Char),
        key_bytes(key, application_cursor) is Some,
        carries_modifiers(key.code) || !key.modifiers.escaping(),
    ensures
        ({
            let m = key.modifiers;
            let held = (if m.shift { 1int } else { 0 }) + (if m.alt { 2int } else { 0 }) + (
            if m.control { 4int } else { 0 });
            let code = if key.code is Tab && m.shift {
                KeyCode::BackTab
            } else {
                key.code
            };
            key_read(key_bytes(key, application_cursor)->0) == Some(
                (code, if carries_modifiers(key.code) { held } else { 0 }),
            )
        }),
{
    let m = key.modifiers;
    lemma_cursor_read(65, m, application_cursor);
    lemma_cursor_read(66, m, application_cursor);
    lemma_cursor_read(67, m, application_cursor);
    lemma_cursor_read(68, m, application_cursor);
    lemma_cursor_read(70, m, application_cursor);
    lemma_cursor_read(72, m, application_cursor);
    lemma_tilde_read(2, m);
    lemma_tilde_read(3, m);
    lemma_tilde_read(5, m);
    lemma_tilde_read(6, m);
    if let KeyCode::F(n) = key.code {
        if modifier_code(m) is None && 1 <= n <= 4 {
            let bytes = seq![0x1bu8, 0x4f, (0x4f + n) as u8];
            assert(bytes.last() == (79 + n) as u8);
        } else {
            lemma_tilde_read(function_number(n)->0, m);
        }
    }
}

/// The modifiers that are held, as the number that stands for them.
pub open spec fn held_number(m: KeyModifiers) -> int {
    (if m.shift { 1int } else { 0 }) + (if m.alt { 2int } else { 0 }) + (if m.control {
        4int
    } else {
        0
    })
}

proof fn lemma_cursor_read(letter: u8, m: KeyModifiers, application_cursor: bool)
    requires
        65 <= letter <= 72,
        key_of_letter(letter) is Some,
    ensures
        key_read(cursor_bytes(letter, m, application_cursor)) == Some(
            (key_of_letter(letter)->0, held_number(m)),
        ),
{
    let bytes = cursor_bytes(letter, m, application_cursor);
    match modifier_code(m) {
        Some(p) => {
            assert(decimal_bytes(p as nat) =~= seq![(48 + p) as u8]);
            assert(bytes =~= seq![0x1bu8, 0x5b, 0x31, 0x3b, (48 + p) as u8, letter]);
        },
        None => {},
    }
}

proof fn lemma_tilde_read(number: u8, m: KeyModifiers)
    requires
        1 <= number < 100,
        key_of_number(number as int) is Some,
    ensures
        key_read(tilde(number, modifier_code(m))) == Some(
            (key_of_number(number as int)->0, held_number(m)),
        ),
{
    let bytes = tilde(number, modifier_code(m));
    lemma_tilde_bytes(number, modifier_code(m));
    match modifier_code(m) {
        Some(p) => {
            if number < 10 {
                assert(bytes =~= seq![27u8, 91, (48 + number) as u8, 59, (48 + p) as u8, 126]);
            } else {
                assert(bytes =~= seq![
                    27u8,
                    91,
                    (48 + number / 10) as u8,
                    (48 + number % 10) as u8,
                    59,
                    (48 + p) as u8,
                    126,
                ]);
            }
        },
        None => {
            if number < 10 {
                assert(bytes =~= seq![27u8, 91, (48 + number) as u8, 126]);
            } else {
                assert(bytes =~= seq![
                    27u8,
                    91,
                    (48 + number / 10) as u8,
                    (48 + number % 10) as u8,
                    126,
                ]);
            }
        },
    }
}

pub proof fn lemma_tilde_bytes(number: u8, parameter: Option<u8>)
    requires
        1 <= number < 100,
        parameter matches Some(p) ==> p < 10,
    ensures
        ({
            let bytes = tilde(number, parameter);
            let digits = if number < 10 {
                seq![(48 + number) as u8]
            } else {
                seq![(48 + number / 10) as u8, (48 + number % 10) as u8]
            };
            match parameter {
                Some(p) => bytes == seq![27u8, 91] + digits + seq![59u8, (48 + p) as u8, 126],
                None => bytes == seq![27u8, 91] + digits + seq![126u8],
            }
        }),
{
    reveal_with_fuel(decimal_bytes, 3);
    let digits = if number < 10 {
        seq![(48 + number) as u8]
    } else {
        seq![(48 + number / 10) as u8, (48 + number % 10) as u8]
    };
    assert(decimal_bytes(number as nat) =~= digits);
    match parameter {
        Some(p) => {
            assert(decimal_bytes(p as nat) =~= seq![(48 + p) as u8]);
            assert(tilde(number, parameter) =~= seq![27u8, 91] + digits + seq![
                59u8,
                (48 + p) as u8,
                126,
            ]);
        },
        None => {
            assert(tilde(number, parameter) =~= seq![27u8, 91] + digits + seq![126u8]);
        },
    }
}

/// Which keys have bytes: all but those that terminals have none for, function keys beyond the
/// twelfth, and characters that Control makes nothing of.
pub proof fn law_keys_that_are_sent(key: KeyEvent, application_cursor: bool)
    ensures
        (key_bytes(key, application_cursor) is Some) == (match key.code {
            KeyCode::Other => false,
            KeyCode::F(n) => 1 <= n <= 12,
            KeyCode::Char(c) => !key.modifiers.control || ('a' <= c <= 'z') || ('@' <= c <= '_') || c
                == ' ' || c == '/' || c == '?',
            _ => true,
        }),
{
}

/// In application mode an unmodified cursor key begins with ESC O, else with ESC [.
pub proof fn law_cursor_mode_picks_the_introducer(key: KeyEvent, application_cursor: bool)
    requires
        key.code is Up || key.code is Down || key.code is Left || key.code is Right || key.code is Home
            || key.code is End,
        !key.modifiers.shift && !key.modifiers.alt && !key.modifiers.control,
    ensures
        ({
            let bytes = key_bytes(key, application_cursor)->0;
            &&& bytes.len() == 3
            &&& bytes[0] == 27
            &&& bytes[1] == if application_cursor {
                79u8
            } else {
                91u8
            }
        }),
{
}

/// A character is sent as its UTF-8 bytes. Control takes all but the five lowest bits away from the
/// characters of its column, a space counts as `@`, a slash as `_`, and a question mark is DEL.
pub proof fn law_characters_are_sent(c: char, m: KeyModifiers, kind: crate::input::KeyEventKind, mode: bool)
    requires
        !m.escaping(),
    ensures
        ({
            let sent = key_bytes(KeyEvent { code: KeyCode::Char(c), modifiers: m, kind }, mode);
            &&& !m.control ==> sent == Some(encode_utf8(seq![c]))
            &&& m.control && ('a' <= c <= 'z' || '@' <= c <= '_') ==> sent == Some(
                seq![(c as u32 % 32) as u8],
            )
            &&& m.control && c == ' ' ==> sent == Some(seq!['@' as u8 % 32])
            &&& m.control && c == '/' ==> sent == Some(seq!['_' as u8 % 32])
            &&& m.control && c == '?' ==> sent == Some(seq![127u8])
        }),
{
}

/// Alt, Meta or Super puts an escape byte in front of what the key is sent as without them, for every
/// character and for every key whose bytes begin with none.
pub proof fn law_alt_is_an_escape_in_front(key: KeyEvent, mode: bool)
    requires
        key.modifiers.escaping(),
        key.code is Char || !carries_modifiers(key.code),
    ensures
        ({
            let bare = KeyEvent {
                modifiers: KeyModifiers {
                    alt: false,
                    meta: false,
                    super_key: false,
                    ..key.modifiers
                },
                ..key
            };
            match key_bytes(bare, mode) {
                None => key_bytes(key, mode) is None,
                Some(bytes) => key_bytes(key, mode) == Some(
                    if !(key.code is Char) && bytes[0] == 27 {
                        bytes
                    } else {
                        seq![27u8] + bytes
                    },
                ),
            }
        }),
{
}

/// A paste reaches the program as its text: bracketed, between `ESC [ 200 ~` and `ESC [ 201 ~`; else
/// bare; and an empty one as Ctrl-V.
pub proof fn law_pastes_are_framed(text: Seq<char>)
    ensures
        text.len() > 0 ==> paste_bytes(text, false) == encode_utf8(text),
        text.len() > 0 ==> paste_bytes(text, true) == seq![27u8, 91, 50, 48, 48, 126] + encode_utf8(
            text,
        ) + seq![27u8, 91, 50, 48, 49, 126],
        text.len() == 0 ==> paste_bytes(text, true) == paste_bytes(text, false),
        text.len() == 0 ==> paste_bytes(text, true) == seq!['v' as u8 % 32],
{
}

/// Whether a number in a mouse report means an event: its bits are the button, Shift, Alt, Control,
/// motion and the wheel.
pub open spec fn number_means(n: int, kind: MouseEventKind, m: KeyModifiers) -> bool {
    let bit = |weight: int| (n / weight) % 2 == 1;
    &&& 0 <= n < 128
    &&& n % 4 == (match kind {
        MouseEventKind::Down(MouseButton::Left) => 0int,
        MouseEventKind::Up(MouseButton::Left) => 0,
        MouseEventKind::Drag(MouseButton::Left) => 0,
        MouseEventKind::Down(MouseButton::Middle) => 1,
        MouseEventKind::Up(MouseButton::Middle) => 1,
        MouseEventKind::Drag(MouseButton::Middle) => 1,
        MouseEventKind::Down(MouseButton::Right) => 2,
        MouseEventKind::Up(MouseButton::Right) => 2,
        MouseEventKind::Drag(MouseButton::Right) => 2,
        MouseEventKind::Moved => 3,
        MouseEventKind::ScrollUp => 0,
        MouseEventKind::ScrollDown => 1,
        MouseEventKind::ScrollLeft => 2,
        MouseEventKind::ScrollRight => 3,
    })
    &&& bit(4) == m.shift
    &&& bit(8) == (m.alt || m.meta || m.super_key)
    &&& bit(16) == m.control
    &&& bit(32) == (kind is Drag || kind is Moved)
    &&& bit(64) == (kind is ScrollUp || kind is ScrollDown || kind is ScrollLeft
        || kind is ScrollRight)
}

/// Which mouse events a program is told of grows with the mode: presses and the wheel always, releases
/// beyond the press mode, drags in the motion modes, and bare motion in the last.
pub proof fn law_modes_report_more_and_more(
    event: MouseEvent,
    at: (u16, u16),
    mode: MouseProtocolMode,
)
    ensures
        (mouse_bytes(event, at, mode, MouseProtocolEncoding::Sgr) is Some) == (match event.kind {
            MouseEventKind::Up(_) => !(mode is Press),
            MouseEventKind::Drag(_) => mode is ButtonMotion || mode is AnyMotion,
            MouseEventKind::Moved => mode is AnyMotion,
            _ => true,
        }),
        (mouse_bytes(event, at, mode, MouseProtocolEncoding::Default) is Some) == (mouse_bytes(
            event,
            at,
            mode,
            MouseProtocolEncoding::Sgr,
        ) is Some && at.0 <= 223 && at.1 <= 223),
{
}

/// A report in the extended encoding holds the number of the event, the column and the row in decimal,
/// and ends in `m` for a release and in `M` for anything else.
pub proof fn law_extended_reports_read_back(
    event: MouseEvent,
    at: (u16, u16),
    mode: MouseProtocolMode,
)
    requires
        mouse_bytes(event, at, mode, MouseProtocolEncoding::Sgr) is Some,
    ensures
        exists|n: int|
            #[trigger] number_means(n, event.kind, event.modifiers) && mouse_bytes(
                event,
                at,
                mode,
                MouseProtocolEncoding::Sgr,
            ) == Some(
                seq![27u8, 91, 60] + decimal_bytes(n as nat) + seq![59u8] + decimal_bytes(
                    at.0 as nat,
                ) + seq![59u8] + decimal_bytes(at.1 as nat) + seq![
                    if event.kind is Up {
                        109u8
                    } else {
                        77u8
                    },
                ],
            ),
{
    let n = mouse_event_code(event.kind, mode)->0 + mouse_modifiers(event.modifiers);
    assert(number_means(n, event.kind, event.modifiers));
}

/// A report in the old encoding is six bytes: the last three are the number of the event, the column
/// and the row, each with 32 added. A release names no button: its two lowest bits are set.
pub proof fn law_old_reports_read_back(event: MouseEvent, at: (u16, u16), mode: MouseProtocolMode)
    requires
        mouse_bytes(event, at, mode, MouseProtocolEncoding::Default) is Some,
    ensures
        ({
            let bytes = mouse_bytes(event, at, mode, MouseProtocolEncoding::Default)->0;
            &&& bytes.len() == 6
            &&& bytes.take(3) == seq![27u8, 91, 77]
            &&& event.kind is Up ==> (bytes[3] - 32) % 4 == 3 && number_means(
                bytes[3] - 32 - 3 + (match event.kind {
                    MouseEventKind::Up(MouseButton::Middle) => 1int,
                    MouseEventKind::Up(MouseButton::Right) => 2,
                    _ => 0,
                }),
                event.kind,
                event.modifiers,
            )
            &&& !(event.kind is Up) ==> number_means(bytes[3] - 32, event.kind, event.modifiers)
            &&& bytes[4] - 32 == at.0
            &&& bytes[5] - 32 == at.1
        }),
{
    let bytes = mouse_bytes(event, at, mode, MouseProtocolEncoding::Default)->0;
    assert(bytes.take(3) =~= seq![27u8, 91, 77]);
}

/// The decimal numeral of a number stands for that number, and is made of digits without a leading
/// zero.
pub proof fn law_decimal_bytes_read_back(n: nat)
    ensures
        numeral_value(decimal_bytes(n)) == n,
        decimal_bytes(n).len() > 0,
        n > 0 ==> decimal_bytes(n)[0] != 48,
        forall|i: int| 0 <= i < decimal_bytes(n).len() ==> 48 <= #[trigger] decimal_bytes(n)[i] <= 57,
    decreases n,
{
    let bytes = decimal_bytes(n);
    if n < 10 {
        assert(bytes.drop_last() =~= Seq::<u8>::empty());
        assert(numeral_value(bytes.drop_last()) == 0);
    } else {
        law_decimal_bytes_read_back(n / 10);
        assert(bytes.drop_last() =~= decimal_bytes(n / 10));
        assert(bytes[0] == decimal_bytes(n / 10)[0]);
    }
}

/// What the digits of a numeral stand for.
pub open spec fn numeral_value(digits: Seq<u8>) -> int
    decreases digits.len(),
{
    if digits.len() == 0 {
        0
    } else {
        numeral_value(digits.drop_last()) * 10 + digit_of(digits.last())
    }
}

/// A report in the UTF-8 encoding is the number of the event, the column and the row, each with 32
/// added, as characters; a release names no button.
pub proof fn law_character_reports_read_back(
    event: MouseEvent,
    at: (u16, u16),
    mode: MouseProtocolMode,
)
    requires
        mouse_bytes(event, at, mode, MouseProtocolEncoding::Utf8) is Some,
    ensures
        exists|number: char|
            mouse_bytes(event, at, mode, MouseProtocolEncoding::Utf8) == Some(
                seq![27u8, 91, 77] + #[trigger] encode_utf8(seq![number]) + encode_utf8(
                    seq![(at.0 + 32) as char],
                ) + encode_utf8(seq![(at.1 + 32) as char]),
            ) && (!(event.kind is Up) ==> number_means(
                number as int - 32,
                event.kind,
                event.modifiers,
            )) && (event.kind is Up ==> (number as int - 32) % 4 == 3),
{
    let bits = mouse_modifiers(event.modifiers);
    let n = if event.kind is Up {
        3 + bits
    } else {
        mouse_event_code(event.kind, mode)->0 + bits
    };
    assert(number_means(mouse_event_code(event.kind, mode)->0 + bits, event.kind, event.modifiers));
    let number = (n + 32) as char;
    assert(mouse_bytes(event, at, mode, MouseProtocolEncoding::Utf8) == Some(
        seq![27u8, 91, 77] + encode_utf8(seq![number]) + encode_utf8(seq![(at.0 + 32) as char])
            + encode_utf8(seq![(at.1 + 32) as char]),
    ));
}

} // verus!
