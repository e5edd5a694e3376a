//! Encoding of keys, mouse events and pasted text for the host.

use vstd::prelude::*;
use vstd::string::*;
use vstd::utf8::*;

use crate::terminal::types::TerminalModes;
use crate::text::{
    bytes_of, decimal, decimal_bytes, lemma_decimal_field, push_decimal, push_decimal_bytes,
    to_chars,
};

verus! {

#[derive(Clone, Debug, Eq, PartialEq)]
pub enum KeyCode {
    Character(String),
    Enter,
    Tab,
    Backspace,
    Escape,
    Up,
    Down,
    Right,
    Left,
    Home,
    End,
    Insert,
    Delete,
    PageUp,
    PageDown,
    Function(u8),
}

#[derive(Clone, Copy, Debug, Default, Eq, PartialEq, Structural)]
pub struct Modifiers {
    pub shift: bool,
    pub alt: bool,
    pub control: bool,
}

#[derive(Clone, Debug, Eq, PartialEq)]
pub struct KeyInput {
    pub code: KeyCode,
    pub modifiers: Modifiers,
}

#[derive(Clone, Copy, Debug, Eq, PartialEq, Structural)]
pub enum MouseButton {
    Left,
    Middle,
    Right,
    NoButton,
}

#[derive(Clone, Copy, Debug, Eq, PartialEq, Structural)]
pub enum MouseKind {
    Press,
    Release,
    Move,
    WheelUp,
    WheelDown,
}

#[derive(Clone, Copy, Debug, Eq, PartialEq, Structural)]
pub struct MouseInput {
    pub kind: MouseKind,
    pub button: MouseButton,
    pub row: usize,
    pub column: usize,
    pub modifiers: Modifiers,
}

/// The byte that Control and a character stand for, where there is one.
pub open spec fn control_code(c: char) -> Option<u8> {
    if c == '@' || c == ' ' {
        Some(0)
    } else if 'A' <= c <= 'Z' {
        Some((c as u32 - 'A' as u32 + 1) as u8)
    } else if 'a' <= c <= 'z' {
        Some((c as u32 - 'a' as u32 + 1) as u8)
    } else if c == '[' {
        Some(27)
    } else if c == '\\' {
        Some(28)
    } else if c == ']' {
        Some(29)
    } else if c == '^' {
        Some(30)
    } else if c == '_' {
        Some(31)
    } else if c == '?' {
        Some(127)
    } else {
        None
    }
}

/// The byte that Control and a text of one character stand for, where there is one.
pub open spec fn control_byte(text: Seq<char>) -> Option<u8> {
    if text.len() == 1 {
        control_code(text[0])
    } else {
        None
    }
}

/// The byte that Control and a text of one character stand for, where there is one.
pub fn control_character(text: &str) -> (res: Option<u8>)
    ensures
        res == control_byte(text@),
{
    if text.unicode_len() != 1 {
        return None;
    }
    let c = text.get_char(0);
    if c == '@' || c == ' ' {
        Some(0)
    } else if 'A' <= c && c <= 'Z' {
        Some(c as u8 - 64)
    } else if 'a' <= c && c <= 'z' {
        Some(c as u8 - 96)
    } else if c == '[' {
        Some(27)
    } else if c == '\\' {
        Some(28)
    } else if c == ']' {
        Some(29)
    } else if c == '^' {
        Some(30)
    } else if c == '_' {
        Some(31)
    } else if c == '?' {
        Some(127)
    } else {
        None
    }
}

/// The number that stands for a set of modifiers in an escape sequence.
pub open spec fn modifier_code(modifiers: Modifiers) -> u8 {
    let shift: int = if modifiers.shift { 1 } else { 0 };
    let alt: int = if modifiers.alt { 2 } else { 0 };
    let control: int = if modifiers.control { 4 } else { 0 };
    (1 + shift + alt + control) as u8
}

/// The number that stands for a set of modifiers in an escape sequence.
pub fn modifier_parameter(modifiers: Modifiers) -> (res: u8)
    ensures
        res == modifier_code(modifiers),
        1 <= res <= 8,
{
    let shift: u8 = if modifiers.shift { 1 } else { 0 };
    let alt: u8 = if modifiers.alt { 2 } else { 0 };
    let control: u8 = if modifiers.control { 4 } else { 0 };
    1 + shift + alt + control
}

/// A sequence that ends in `final_character`, with a parameter where modifiers are held.
pub open spec fn final_sequence(introducer: char, final_character: char, modifier: u8) -> Seq<char> {
    if modifier == 1 {
        seq!['\x1b', introducer, final_character]
    } else {
        (seq!['\x1b', introducer, '1', ';'] + decimal(modifier as nat)).push(final_character)
    }
}

/// A sequence with a number that ends in a tilde.
pub open spec fn tilde_sequence(number: u8, modifier: u8) -> Seq<char> {
    if modifier == 1 {
        (seq!['\x1b', '['] + decimal(number as nat)).push('~')
    } else {
        ((seq!['\x1b', '['] + decimal(number as nat)).push(';') + decimal(modifier as nat)).push('~')
    }
}

/// A cursor key. In application mode an unmodified key has an introducer of its own.
pub open spec fn cursor_key(final_character: char, modifier: u8, application: bool) -> Seq<char> {
    if modifier == 1 && application {
        final_sequence('O', final_character, modifier)
    } else {
        final_sequence('[', final_character, modifier)
    }
}

/// A function key from 1 to 12; there is nothing to say of any other.
pub open spec fn function_sequence(number: u8, modifier: u8) -> Seq<char> {
    if number == 1 {
        final_sequence('O', 'P', modifier)
    } else if number == 2 {
        final_sequence('O', 'Q', modifier)
    } else if number == 3 {
        final_sequence('O', 'R', modifier)
    } else if number == 4 {
        final_sequence('O', 'S', modifier)
    } else if number == 5 {
        tilde_sequence(15, modifier)
    } else if 6 <= number <= 10 {
        tilde_sequence((number + 11) as u8, modifier)
    } else if number == 11 {
        tilde_sequence(23, modifier)
    } else if number == 12 {
        tilde_sequence(24, modifier)
    } else {
        Seq::empty()
    }
}

fn sequence_with_final(introducer: char, final_character: char, modifier: u8) -> (res: String)
    ensures
        res@ == final_sequence(introducer, final_character, modifier),
{
    let mut out = String::new();
    out.push('\x1b');
    out.push(introducer);
    if modifier != 1 {
        out.push('1');
        out.push(';');
        push_decimal(&mut out, modifier as u64);
    }
    out.push(final_character);
    assert(out@ =~= final_sequence(introducer, final_character, modifier));
    out
}

/// A cursor key.
pub fn cursor_sequence(final_character: char, modifier: u8, application: bool) -> (res: String)
    ensures
        res@ == cursor_key(final_character, modifier, application),
{
    if modifier == 1 && application {
        sequence_with_final('O', final_character, modifier)
    } else {
        sequence_with_final('[', final_character, modifier)
    }
}

/// A control sequence that ends in `final_character`.
pub fn csi_final(final_character: char, modifier: u8) -> (res: String)
    ensures
        res@ == final_sequence('[', final_character, modifier),
{
    sequence_with_final('[', final_character, modifier)
}

/// A control sequence with a number that ends in a tilde.
pub fn csi_tilde(number: u8, modifier: u8) -> (res: String)
    ensures
        res@ == tilde_sequence(number, modifier),
{
    let mut out = String::new();
    out.push('\x1b');
    out.push('[');
    push_decimal(&mut out, number as u64);
    if modifier != 1 {
        out.push(';');
        push_decimal(&mut out, modifier as u64);
    }
    out.push('~');
    assert(out@ =~= tilde_sequence(number, modifier));
    out
}

/// A function key.
pub fn function_key(number: u8, modifier: u8) -> (res: String)
    ensures
        res@ == function_sequence(number, modifier),
{
    match number {
        1 => sequence_with_final('O', 'P', modifier),
        2 => sequence_with_final('O', 'Q', modifier),
        3 => sequence_with_final('O', 'R', modifier),
        4 => sequence_with_final('O', 'S', modifier),
        5 => csi_tilde(15, modifier),
        6 => csi_tilde(17, modifier),
        7 => csi_tilde(18, modifier),
        8 => csi_tilde(19, modifier),
        9 => csi_tilde(20, modifier),
        10 => csi_tilde(21, modifier),
        11 => csi_tilde(23, modifier),
        12 => csi_tilde(24, modifier),
        _ => String::new(),
    }
}

/// The number of a key in the kitty keyboard protocol. Text without Control or Alt has none.
pub open spec fn kitty_code(input: KeyInput) -> Option<nat> {
    match input.code {
        KeyCode::Character(text) => if (input.modifiers.control || input.modifiers.alt)
            && text@.len() > 0 {
            Some(text@[0] as nat)
        } else {
            None
        },
        KeyCode::Enter => Some(13),
        KeyCode::Tab => Some(9),
        KeyCode::Backspace => Some(127),
        KeyCode::Escape => Some(27),
        KeyCode::Left => Some(57_350),
        KeyCode::Right => Some(57_351),
        KeyCode::Up => Some(57_352),
        KeyCode::Down => Some(57_353),
        KeyCode::Home => Some(57_360),
        KeyCode::End => Some(57_361),
        KeyCode::Insert => Some(57_362),
        KeyCode::Delete => Some(57_363),
        KeyCode::PageUp => Some(57_364),
        KeyCode::PageDown => Some(57_365),
        KeyCode::Function(number) => if 1 <= number <= 12 {
            Some((57_375 + number) as nat)
        } else {
            None
        },
    }
}

/// A key in the kitty keyboard protocol.
pub open spec fn kitty_key(code: nat, modifier: u8) -> Seq<char> {
    ((seq!['\x1b', '['] + decimal(code)).push(';') + decimal(modifier as nat)).push('u')
}

/// A key in the kitty keyboard protocol, where it has a number there.
pub fn kitty_sequence(input: &KeyInput) -> (res: Option<String>)
    ensures
        match (kitty_code(*input), res) {
            (Some(code), Some(sequence)) => sequence@ == kitty_key(
                code,
                modifier_code(input.modifiers),
            ),
            (None, None) => true,
            _ => false,
        },
{
    let code: u32 = match &input.code {
        KeyCode::Character(text) => {
            if !input.modifiers.control && !input.modifiers.alt {
                return None;
            }
            if text.as_str().unicode_len() == 0 {
                return None;
            }
            text.as_str().get_char(0) as u32
        },
        KeyCode::Enter => 13,
        KeyCode::Tab => 9,
        KeyCode::Backspace => 127,
        KeyCode::Escape => 27,
        KeyCode::Left => 57_350,
        KeyCode::Right => 57_351,
        KeyCode::Up => 57_352,
        KeyCode::Down => 57_353,
        KeyCode::Home => 57_360,
        KeyCode::End => 57_361,
        KeyCode::Insert => 57_362,
        KeyCode::Delete => 57_363,
        KeyCode::PageUp => 57_364,
        KeyCode::PageDown => 57_365,
        KeyCode::Function(number) => {
            if *number < 1 || *number > 12 {
                return None;
            }
            57_375 + *number as u32
        },
    };
    let mut out = String::new();
    out.push('\x1b');
    out.push('[');
    push_decimal(&mut out, code as u64);
    out.push(';');
    push_decimal(&mut out, modifier_parameter(input.modifiers) as u64);
    out.push('u');
    assert(out@ =~= kitty_key(code as nat, modifier_code(input.modifiers)));
    Some(out)
}

/// What a key other than text stands for, before Alt is taken into account.
pub open spec fn legacy_sequence(input: KeyInput, application_cursor: bool) -> Seq<char> {
    let modifier = modifier_code(input.modifiers);
    match input.code {
        KeyCode::Character(text) => text@,
        KeyCode::Enter => seq!['\r'],
        KeyCode::Tab => if input.modifiers.shift {
            seq!['\x1b', '[', 'Z']
        } else {
            seq!['\t']
        },
        KeyCode::Backspace => seq!['\x7f'],
        KeyCode::Escape => seq!['\x1b'],
        KeyCode::Up => cursor_key('A', modifier, application_cursor),
        KeyCode::Down => cursor_key('B', modifier, application_cursor),
        KeyCode::Right => cursor_key('C', modifier, application_cursor),
        KeyCode::Left => cursor_key('D', modifier, application_cursor),
        KeyCode::Home => final_sequence('[', 'H', modifier),
        KeyCode::End => final_sequence('[', 'F', modifier),
        KeyCode::Insert => tilde_sequence(2, modifier),
        KeyCode::Delete => tilde_sequence(3, modifier),
        KeyCode::PageUp => tilde_sequence(5, modifier),
        KeyCode::PageDown => tilde_sequence(6, modifier),
        KeyCode::Function(number) => function_sequence(number, modifier),
    }
}

/// What a key stands for outside the kitty keyboard protocol, before Alt is taken into account.
pub open spec fn legacy_bytes(input: KeyInput, application_cursor: bool) -> Seq<u8> {
    match input.code {
        KeyCode::Character(text) => match control_byte(text@) {
            Some(byte) if input.modifiers.control => seq![byte],
            _ => encode_utf8(text@),
        },
        _ => encode_utf8(legacy_sequence(input, application_cursor)),
    }
}

/// The bytes that a key sends to the host.
///
/// In the kitty keyboard protocol a key is sent by its number. Otherwise text is sent as it is,
/// Control and a character as a control byte, any other key as an escape sequence, and Alt puts an
/// escape in front, but for the escape key itself.
pub open spec fn key_bytes(input: KeyInput, modes: TerminalModes) -> Seq<u8> {
    match kitty_code(input) {
        Some(code) if modes.kitty_keyboard => encode_utf8(
            kitty_key(code, modifier_code(input.modifiers)),
        ),
        _ => if input.modifiers.alt && !(input.code is Escape) {
            seq![0x1bu8] + legacy_bytes(input, modes.application_cursor)
        } else {
            legacy_bytes(input, modes.application_cursor)
        },
    }
}

fn key_sequence(input: &KeyInput, application_cursor: bool) -> (res: String)
    ensures
        res@ == legacy_sequence(*input, application_cursor),
{
    let modifier = modifier_parameter(input.modifiers);
    match &input.code {
        KeyCode::Character(text) => text.clone(),
        KeyCode::Enter => one_character('\r'),
        KeyCode::Tab => if input.modifiers.shift {
            csi_final('Z', 1)
        } else {
            one_character('\t')
        },
        KeyCode::Backspace => one_character('\x7f'),
        KeyCode::Escape => one_character('\x1b'),
        KeyCode::Up => cursor_sequence('A', modifier, application_cursor),
        KeyCode::Down => cursor_sequence('B', modifier, application_cursor),
        KeyCode::Right => cursor_sequence('C', modifier, application_cursor),
        KeyCode::Left => cursor_sequence('D', modifier, application_cursor),
        KeyCode::Home => csi_final('H', modifier),
        KeyCode::End => csi_final('F', modifier),
        KeyCode::Insert => csi_tilde(2, modifier),
        KeyCode::Delete => csi_tilde(3, modifier),
        KeyCode::PageUp => csi_tilde(5, modifier),
        KeyCode::PageDown => csi_tilde(6, modifier),
        KeyCode::Function(number) => function_key(*number, modifier),
    }
}

fn one_character(c: char) -> (res: String)
    ensures
        res@ == seq![c],
{
    let mut out = String::new();
    out.push(c);
    assert(out@ =~= seq![c]);
    out
}

/// The bytes that a key sends to the host.
#[must_use]
pub fn encode_key(input: &KeyInput, modes: TerminalModes) -> (res: Vec<u8>)
    ensures
        res@ == key_bytes(*input, modes),
{
    if modes.kitty_keyboard {
        if let Some(sequence) = kitty_sequence(input) {
            return bytes_of(sequence.as_str());
        }
    }
    let control = match &input.code {
        KeyCode::Character(text) => if input.modifiers.control {
            control_character(text.as_str())
        } else {
            None
        },
        _ => None,
    };
    let mut bytes = match control {
        Some(byte) => {
            let mut bytes: Vec<u8> = Vec::new();
            bytes.push(byte);
            bytes
        },
        None => bytes_of(key_sequence(input, modes.application_cursor).as_str()),
    };
    assert(bytes@ =~= legacy_bytes(*input, modes.application_cursor));
    let escape = match &input.code {
        KeyCode::Escape => true,
        _ => false,
    };
    if input.modifiers.alt && !escape {
        bytes.insert(0, 0x1b);
        assert(bytes@ =~= seq![0x1bu8] + legacy_bytes(*input, modes.application_cursor));
    }
    bytes
}

/// The code of a mouse event: what happened, with which button, and which modifiers were held.
pub open spec fn mouse_code(input: MouseInput) -> int {
    let button: int = match input.button {
        MouseButton::Left => 0,
        MouseButton::Middle => 1,
        MouseButton::Right => 2,
        MouseButton::NoButton => 3,
    };
    let event: int = match input.kind {
        MouseKind::WheelUp => 64,
        MouseKind::WheelDown => 65,
        MouseKind::Release => 3,
        MouseKind::Press => button,
        MouseKind::Move => button + 32,
    };
    let shift: int = if input.modifiers.shift { 4 } else { 0 };
    let alt: int = if input.modifiers.alt { 8 } else { 0 };
    let control: int = if input.modifiers.control { 16 } else { 0 };
    event + shift + alt + control
}

/// A coordinate in the older encoding: one byte, at most 255.
pub open spec fn mouse_coordinate(value: int) -> u8 {
    if value + 33 > 255 {
        255
    } else {
        (value + 33) as u8
    }
}

/// A mouse event in the older encoding.
pub open spec fn plain_report(input: MouseInput) -> Seq<u8> {
    seq![
        0x1bu8,
        0x5b,
        0x4d,
        (mouse_code(input) + 32) as u8,
        mouse_coordinate(input.column as int),
        mouse_coordinate(input.row as int),
    ]
}

/// A mouse event in the SGR encoding, which counts from one and tells a release by its last byte.
pub open spec fn sgr_report(input: MouseInput) -> Seq<u8> {
    let code = seq![0x1bu8, 0x5b, 0x3c] + decimal_bytes(mouse_code(input) as nat);
    let column = code.push(0x3b) + decimal_bytes((input.column + 1) as nat);
    let row = column.push(0x3b) + decimal_bytes((input.row + 1) as nat);
    row.push(
        if input.kind is Release {
            0x6d
        } else {
            0x4d
        },
    )
}

/// The bytes that a mouse event sends to the host; none unless the host asked for reports.
pub open spec fn mouse_bytes(input: MouseInput, modes: TerminalModes) -> Seq<u8> {
    if !modes.mouse_tracking {
        Seq::empty()
    } else if modes.sgr_mouse {
        sgr_report(input)
    } else {
        plain_report(input)
    }
}

fn coordinate(value: usize) -> (res: u8)
    ensures
        res == mouse_coordinate(value as int),
{
    if value > 222 {
        255
    } else {
        value as u8 + 33
    }
}

fn event_code(input: MouseInput) -> (res: u8)
    ensures
        res == mouse_code(input),
        res <= 93,
{
    let button: u8 = match input.button {
        MouseButton::Left => 0,
        MouseButton::Middle => 1,
        MouseButton::Right => 2,
        MouseButton::NoButton => 3,
    };
    let event: u8 = match input.kind {
        MouseKind::WheelUp => 64,
        MouseKind::WheelDown => 65,
        MouseKind::Release => 3,
        MouseKind::Press => button,
        MouseKind::Move => button + 32,
    };
    let shift: u8 = if input.modifiers.shift { 4 } else { 0 };
    let alt: u8 = if input.modifiers.alt { 8 } else { 0 };
    let control: u8 = if input.modifiers.control { 16 } else { 0 };
    event + shift + alt + control
}

fn encode_sgr_report(input: MouseInput) -> (res: Vec<u8>)
    requires
        input.column < usize::MAX,
        input.row < usize::MAX,
    ensures
        res@ == sgr_report(input),
{
    let mut bytes: Vec<u8> = vec![0x1b, 0x5b, 0x3c];
    let code = event_code(input);
    push_decimal_bytes(&mut bytes, code as u64);
    bytes.push(0x3b);
    push_decimal_bytes(&mut bytes, input.column as u64 + 1);
    bytes.push(0x3b);
    push_decimal_bytes(&mut bytes, input.row as u64 + 1);
    match input.kind {
        MouseKind::Release => bytes.push(0x6d),
        _ => bytes.push(0x4d),
    }
    bytes
}

/// The bytes that a mouse event sends to the host; none unless the host asked for reports.
#[must_use]
pub fn encode_mouse(input: MouseInput, modes: TerminalModes) -> (res: Vec<u8>)
    requires
        modes.mouse_tracking && modes.sgr_mouse ==> input.column < usize::MAX && input.row
            < usize::MAX,
    ensures
        res@ == mouse_bytes(input, modes),
{
    if !modes.mouse_tracking {
        Vec::new()
    } else if modes.sgr_mouse {
        encode_sgr_report(input)
    } else {
        vec![
            0x1b,
            0x5b,
            0x4d,
            event_code(input) + 32,
            coordinate(input.column),
            coordinate(input.row),
        ]
    }
}

/// What opens a bracketed paste.
#[verifier::opaque]
pub open spec fn paste_start() -> Seq<char> {
    seq!['\x1b', '[', '2', '0', '0', '~']
}

/// What closes a bracketed paste.
#[verifier::opaque]
pub open spec fn paste_end() -> Seq<char> {
    seq!['\x1b', '[', '2', '0', '1', '~']
}

/// Whether `marker` stands at `at` in `text`.
pub open spec fn stands_at(text: Seq<char>, marker: Seq<char>, at: int) -> bool {
    0 <= at && at + marker.len() <= text.len() && text.subrange(at, at + marker.len()) == marker
}

/// `text` without the occurrences of `marker`, which are looked for from left to right.
pub open spec fn without_marker(text: Seq<char>, marker: Seq<char>) -> Seq<char>
    decreases text.len(),
{
    if marker.len() == 0 || text.len() < marker.len() {
        text
    } else if stands_at(text, marker, 0) {
        without_marker(text.skip(marker.len() as int), marker)
    } else {
        seq![text[0]] + without_marker(text.skip(1), marker)
    }
}

/// The characters that pasting `text` sends to the host. In bracketed mode the text stands
/// between two markers, and the closing marker is taken out of the text.
pub open spec fn paste_text(text: Seq<char>, modes: TerminalModes) -> Seq<char> {
    if modes.bracketed_paste {
        paste_start() + without_marker(text, paste_end()) + paste_end()
    } else {
        text
    }
}

proof fn lemma_markers()
    ensures
        paste_start().len() == 6,
        paste_end().len() == 6,
        paste_start()[4] != paste_end()[4],
        paste_start()[0] == '\x1b',
        paste_end()[0] == '\x1b',
        forall|i: int| 0 < i < 6 ==> #[trigger] paste_start()[i] != '\x1b',
        forall|i: int| 0 < i < 6 ==> #[trigger] paste_end()[i] != '\x1b',
{
    reveal(paste_start);
    reveal(paste_end);
}

/// Whether what closes a bracketed paste stands at `at`.
fn end_stands_at(chars: &Vec<char>, at: usize) -> (res: bool)
    requires
        at <= chars.len(),
    ensures
        res == stands_at(chars@, paste_end(), at as int),
{
    proof {
        reveal(paste_end);
    }
    if chars.len() - at < 6 {
        return false;
    }
    let res = chars[at] == '\x1b' && chars[at + 1] == '[' && chars[at + 2] == '2' && chars[at + 3]
        == '0' && chars[at + 4] == '1' && chars[at + 5] == '~';
    proof {
        let found = chars@.subrange(at as int, at + 6);
        if res {
            assert(found =~= paste_end());
        } else if found == paste_end() {
            assert(found[0] == '\x1b' && found[1] == '[' && found[2] == '2' && found[3] == '0'
                && found[4] == '1' && found[5] == '~');
        }
    }
    res
}

/// Appends `text` without what closes a bracketed paste.
fn push_sanitized(out: &mut String, text: &str)
    ensures
        final(out)@ == old(out)@ + without_marker(text@, paste_end()),
{
    let ghost before = out@;
    let chars = to_chars(text);
    let mut i: usize = 0;
    proof {
        lemma_markers();
        assert(text@.skip(0) =~= text@);
    }
    while i < chars.len()
        invariant
            i <= chars.len(),
            chars@ == text@,
            paste_end().len() == 6,
            out@ + without_marker(text@.skip(i as int), paste_end()) == before + without_marker(
                text@,
                paste_end(),
            ),
        decreases chars.len() - i,
    {
        let ghost rest = text@.skip(i as int);
        if end_stands_at(&chars, i) {
            proof {
                assert(rest.subrange(0, 6) =~= text@.subrange(i as int, i + 6));
                assert(rest.skip(6) =~= text@.skip(i + 6));
            }
            i = i + 6;
        } else {
            proof {
                assert(rest.skip(1) =~= text@.skip(i + 1));
                if rest.len() >= 6 {
                    assert(rest.subrange(0, 6) =~= text@.subrange(i as int, i + 6));
                } else {
                    assert(seq![rest[0]] + rest.skip(1) =~= rest);
                }
                assert(out@.push(rest[0]) + without_marker(rest.skip(1), paste_end()) =~= out@ + (
                seq![rest[0]] + without_marker(rest.skip(1), paste_end())));
            }
            out.push(chars[i]);
            i = i + 1;
        }
    }
    assert(out@ + without_marker(text@.skip(i as int), paste_end()) =~= out@);
}

/// The bytes that pasting `text` sends to the host.
#[must_use]
pub fn encode_paste(text: &str, modes: TerminalModes) -> (res: Vec<u8>)
    ensures
        res@ == encode_utf8(paste_text(text@, modes)),
{
    if modes.bracketed_paste {
        let mut out = csi_tilde(200, 1);
        proof {
            reveal_with_fuel(decimal, 4);
            reveal(paste_start);
            assert(out@ =~= paste_start());
        }
        push_sanitized(&mut out, text);
        let end = csi_tilde(201, 1);
        proof {
            reveal_with_fuel(decimal, 4);
            reveal(paste_end);
            assert(end@ =~= paste_end());
        }
        out.append(end.as_str());
        bytes_of(out.as_str())
    } else {
        bytes_of(text)
    }
}

/// Text that does not hold the closing marker is pasted as it is.
pub proof fn law_ordinary_text_is_pasted_whole(text: Seq<char>)
    requires
        forall|at: int| !stands_at(text, paste_end(), at),
    ensures
        without_marker(text, paste_end()) == text,
    decreases text.len(),
{
    lemma_markers();
    if text.len() >= 6 {
        let rest = text.skip(1);
        assert forall|at: int| !stands_at(rest, paste_end(), at) by {
            if stands_at(rest, paste_end(), at) {
                assert(text.subrange(at + 1, at + 7) =~= rest.subrange(at, at + 6));
                assert(stands_at(text, paste_end(), at + 1));
            }
        }
        law_ordinary_text_is_pasted_whole(rest);
        assert(seq![text[0]] + rest =~= text);
    }
}

/// A bracketed paste is closed only at its end. This is owed for text in which taking out the
/// closing marker leaves none behind.
pub proof fn law_paste_cannot_close_itself(text: Seq<char>, modes: TerminalModes, at: int)
    requires
        modes.bracketed_paste,
        forall|i: int| !stands_at(without_marker(text, paste_end()), paste_end(), i),
    ensures
        stands_at(paste_text(text, modes), paste_end(), at) <==> at == paste_text(text, modes).len()
            - 6,
{
    lemma_markers();
    let inner = without_marker(text, paste_end());
    let whole = paste_text(text, modes);
    let close = whole.len() - 6;
    assert(whole.subrange(close, close + 6) =~= paste_end());
    if stands_at(whole, paste_end(), at) {
        let found = whole.subrange(at, at + 6);
        assert(found[0] == whole[at]);
        if at < 6 {
            assert(whole[at] == paste_start()[at]);
            assert(found[4] == whole[at + 4]);
            assert(whole[4] == paste_start()[4]);
        } else if at <= close - 6 {
            assert(inner.subrange(at - 6, at) =~= found);
            assert(stands_at(inner, paste_end(), at - 6));
        } else if at < close {
            assert(whole[close] == paste_end()[0]);
            assert(found[close - at] == whole[close]);
        }
    }
}

/// Outside bracketed mode text is pasted as it is.
pub proof fn law_plain_paste_is_verbatim(text: Seq<char>, modes: TerminalModes)
    requires
        !modes.bracketed_paste,
    ensures
        paste_text(text, modes) == text,
{
}

/// The cursor keys tell application mode from normal mode only while no modifier is held.
pub proof fn law_modified_cursor_keys_ignore_application_mode(final_character: char, modifier: u8)
    ensures
        modifier != 1 ==> cursor_key(final_character, modifier, true) == cursor_key(
            final_character,
            modifier,
            false,
        ),
        cursor_key(final_character, 1, true) != cursor_key(final_character, 1, false),
{
    assert(cursor_key(final_character, 1, true)[1] == 'O');
    assert(cursor_key(final_character, 1, false)[1] == '[');
}

/// Text that is typed without Control and Alt is sent as it is, in every mode.
pub proof fn law_text_is_sent_verbatim(input: KeyInput, modes: TerminalModes)
    requires
        input.code is Character,
        !input.modifiers.control,
        !input.modifiers.alt,
    ensures
        input.code matches KeyCode::Character(text) && key_bytes(input, modes) == encode_utf8(
            text@,
        ),
{
}

/// Nothing is reported of the mouse unless the host asked for it, and something is where it did.
pub proof fn law_mouse_is_reported_on_request(input: MouseInput, modes: TerminalModes)
    ensures
        mouse_bytes(input, modes).len() > 0 <==> modes.mouse_tracking,
{
}

spec fn report_end(input: MouseInput) -> u8 {
    if input.kind is Release {
        0x6d
    } else {
        0x4d
    }
}

proof fn lemma_report_fields(input: MouseInput)
    ensures
        sgr_report(input).skip(3) == decimal_bytes(mouse_code(input) as nat).push(0x3b) + (
        decimal_bytes((input.column + 1) as nat).push(0x3b) + (decimal_bytes(
            (input.row + 1) as nat,
        ).push(report_end(input)) + Seq::<u8>::empty())),
{
    assert(sgr_report(input).skip(3) =~= decimal_bytes(mouse_code(input) as nat).push(0x3b) + (
    decimal_bytes((input.column + 1) as nat).push(0x3b) + (decimal_bytes(
        (input.row + 1) as nat,
    ).push(report_end(input)) + Seq::<u8>::empty())));
}

/// From a report in the SGR encoding the host can tell the code, the cell, and whether a button was
/// released, however large the screen is.
pub proof fn law_sgr_reports_are_unambiguous(a: MouseInput, b: MouseInput)
    requires
        sgr_report(a) == sgr_report(b),
    ensures
        mouse_code(a) == mouse_code(b),
        a.column == b.column,
        a.row == b.row,
        a.kind is Release <==> b.kind is Release,
{
    lemma_report_fields(a);
    lemma_report_fields(b);
    let nothing = Seq::<u8>::empty();
    let row_a = decimal_bytes((a.row + 1) as nat).push(report_end(a)) + nothing;
    let row_b = decimal_bytes((b.row + 1) as nat).push(report_end(b)) + nothing;
    let column_a = decimal_bytes((a.column + 1) as nat).push(0x3b) + row_a;
    let column_b = decimal_bytes((b.column + 1) as nat).push(0x3b) + row_b;
    lemma_decimal_field(
        mouse_code(a) as nat,
        mouse_code(b) as nat,
        0x3b,
        0x3b,
        column_a,
        column_b,
    );
    lemma_decimal_field((a.column + 1) as nat, (b.column + 1) as nat, 0x3b, 0x3b, row_a, row_b);
    lemma_decimal_field(
        (a.row + 1) as nat,
        (b.row + 1) as nat,
        report_end(a),
        report_end(b),
        nothing,
        nothing,
    );
}

} // verus!
