//! What the host can tell from the bytes that keys, the mouse and pasted text send.

use vstd::prelude::*;
use vstd::utf8::*;

use crate::terminal::input::{
    final_sequence, key_bytes, kitty_code, kitty_key, legacy_bytes, legacy_sequence,
    modifier_code, mouse_bytes, mouse_code, paste_end, paste_start, paste_text, tilde_sequence,
    without_marker, KeyCode, KeyInput, Modifiers, MouseInput,
};
use crate::terminal::types::TerminalModes;
use crate::text::{
    decimal, decimal_bytes, law_decimal_bytes_are_its_digits, law_decimal_reads_back,
    lemma_decimal_is_digits, read_decimal,
};

verus! {

/// Whether the key sends a sequence that can carry modifiers: a cursor key, an editing key, or a
/// function key that keyboards have.
pub open spec fn takes_parameter(code: KeyCode) -> bool {
    match code {
        KeyCode::Character(_) | KeyCode::Enter | KeyCode::Tab | KeyCode::Backspace
        | KeyCode::Escape => false,
        KeyCode::Function(number) => 1 <= number <= 12,
        _ => true,
    }
}

/// Whether any modifier is held.
pub open spec fn any_held(modifiers: Modifiers) -> bool {
    modifiers.shift || modifiers.alt || modifiers.control
}

/// One more than the bits of the modifiers that are held.
pub open spec fn held_bits(modifiers: Modifiers) -> int {
    let shift: int = if modifiers.shift { 1 } else { 0 };
    let alt: int = if modifiers.alt { 2 } else { 0 };
    let control: int = if modifiers.control { 4 } else { 0 };
    1 + shift + alt + control
}

/// The byte that ends the sequence of a key.
pub open spec fn final_byte(code: KeyCode) -> u8 {
    match code {
        KeyCode::Up => 0x41,
        KeyCode::Down => 0x42,
        KeyCode::Right => 0x43,
        KeyCode::Left => 0x44,
        KeyCode::Home => 0x48,
        KeyCode::End => 0x46,
        KeyCode::Function(1) => 0x50,
        KeyCode::Function(2) => 0x51,
        KeyCode::Function(3) => 0x52,
        KeyCode::Function(4) => 0x53,
        _ => 0x7e,
    }
}

/// The number in the sequence of a key. A key that is told by its last byte has the number one.
pub open spec fn tilde_number(code: KeyCode) -> int {
    match code {
        KeyCode::Insert => 2,
        KeyCode::Delete => 3,
        KeyCode::PageUp => 5,
        KeyCode::PageDown => 6,
        KeyCode::Function(number) => if number <= 4 {
            1
        } else if number == 5 {
            15
        } else if number <= 10 {
            number + 11
        } else {
            number + 12
        },
        _ => 1,
    }
}

/// The bytes of a number below a hundred.
spec fn small_number(value: int) -> Seq<u8> {
    if value < 10 {
        seq![(0x30 + value) as u8]
    } else {
        seq![(0x30 + value / 10) as u8, (0x30 + value % 10) as u8]
    }
}

/// The bytes of a key that takes a parameter, but for the escape that Alt puts in front.
spec fn parameter_form(code: KeyCode, modifiers: Modifiers, application: bool) -> Seq<u8> {
    let introducer: u8 = match code {
        KeyCode::Up | KeyCode::Down | KeyCode::Right | KeyCode::Left => if application
            && !any_held(modifiers) {
            0x4f
        } else {
            0x5b
        },
        KeyCode::Function(number) => if number <= 4 {
            0x4f
        } else {
            0x5b
        },
        _ => 0x5b,
    };
    let number: Seq<u8> = if final_byte(code) == 0x7e || any_held(modifiers) {
        small_number(tilde_number(code))
    } else {
        Seq::empty()
    };
    let held: Seq<u8> = if any_held(modifiers) {
        seq![0x3bu8, (0x30 + held_bits(modifiers)) as u8]
    } else {
        Seq::empty()
    };
    (seq![0x1bu8, introducer] + number + held).push(final_byte(code))
}

proof fn lemma_small_decimal(value: nat)
    requires
        value < 100,
    ensures
        is_ascii_chars(decimal(value)),
        decimal(value).len() == if value < 10 {
            1nat
        } else {
            2nat
        },
        value < 10 ==> decimal(value)[0] as u32 == 0x30 + value,
        value >= 10 ==> decimal(value)[0] as u32 == 0x30 + value / 10 && decimal(value)[1] as u32
            == 0x30 + value % 10,
{
    reveal_with_fuel(decimal, 3);
}

proof fn lemma_final_bytes(introducer: char, final_character: char, modifiers: Modifiers)
    requires
        introducer <= '\u{7f}',
        final_character <= '\u{7f}',
    ensures
        encode_utf8(final_sequence(introducer, final_character, modifier_code(modifiers)))
            == if any_held(modifiers) {
            seq![
                0x1bu8,
                introducer as u8,
                0x31,
                0x3b,
                (0x30 + held_bits(modifiers)) as u8,
                final_character as u8,
            ]
        } else {
            seq![0x1bu8, introducer as u8, final_character as u8]
        },
{
    let chars = final_sequence(introducer, final_character, modifier_code(modifiers));
    lemma_small_decimal(held_bits(modifiers) as nat);
    assert(is_ascii_chars(chars));
    is_ascii_chars_encode_utf8(chars);
    let bytes = encode_utf8(chars);
    if any_held(modifiers) {
        assert(chars.len() == 6);
        assert(bytes[0] == chars[0] as u8 && bytes[1] == chars[1] as u8 && bytes[2] == chars[2] as u8
            && bytes[3] == chars[3] as u8 && bytes[4] == chars[4] as u8 && bytes[5]
            == chars[5] as u8);
        assert(bytes =~= seq![
            0x1bu8,
            introducer as u8,
            0x31,
            0x3b,
            (0x30 + held_bits(modifiers)) as u8,
            final_character as u8,
        ]);
    } else {
        assert(bytes[0] == chars[0] as u8 && bytes[1] == chars[1] as u8 && bytes[2]
            == chars[2] as u8);
        assert(bytes =~= seq![0x1bu8, introducer as u8, final_character as u8]);
    }
}

proof fn lemma_tilde_bytes(number: u8, modifiers: Modifiers)
    requires
        number < 100,
    ensures
        encode_utf8(tilde_sequence(number, modifier_code(modifiers))) == (seq![0x1bu8, 0x5b]
            + small_number(number as int) + if any_held(modifiers) {
            seq![0x3bu8, (0x30 + held_bits(modifiers)) as u8]
        } else {
            Seq::empty()
        }).push(0x7e),
{
    let chars = tilde_sequence(number, modifier_code(modifiers));
    lemma_small_decimal(held_bits(modifiers) as nat);
    lemma_small_decimal(number as nat);
    assert(is_ascii_chars(chars));
    is_ascii_chars_encode_utf8(chars);
    let bytes = encode_utf8(chars);
    let form = (seq![0x1bu8, 0x5b] + small_number(number as int) + if any_held(modifiers) {
        seq![0x3bu8, (0x30 + held_bits(modifiers)) as u8]
    } else {
        Seq::empty()
    }).push(0x7e);
    assert(chars.len() == form.len());
    assert forall|i: int| 0 <= i < form.len() implies #[trigger] bytes[i] == form[i] by {
        assert(chars[i] as u8 == bytes[i]);
    }
    assert(bytes =~= form);
}

proof fn lemma_parameter_form(input: KeyInput, application: bool)
    requires
        takes_parameter(input.code),
    ensures
        legacy_bytes(input, application) == parameter_form(
            input.code,
            input.modifiers,
            application,
        ),
{
    let form = parameter_form(input.code, input.modifiers, application);
    let introducer = if application && !any_held(input.modifiers) {
        'O'
    } else {
        '['
    };
    match input.code {
        KeyCode::Up => lemma_final_bytes(introducer, 'A', input.modifiers),
        KeyCode::Down => lemma_final_bytes(introducer, 'B', input.modifiers),
        KeyCode::Right => lemma_final_bytes(introducer, 'C', input.modifiers),
        KeyCode::Left => lemma_final_bytes(introducer, 'D', input.modifiers),
        KeyCode::Home => lemma_final_bytes('[', 'H', input.modifiers),
        KeyCode::End => lemma_final_bytes('[', 'F', input.modifiers),
        KeyCode::Function(1) => lemma_final_bytes('O', 'P', input.modifiers),
        KeyCode::Function(2) => lemma_final_bytes('O', 'Q', input.modifiers),
        KeyCode::Function(3) => lemma_final_bytes('O', 'R', input.modifiers),
        KeyCode::Function(4) => lemma_final_bytes('O', 'S', input.modifiers),
        _ => lemma_tilde_bytes(tilde_number(input.code) as u8, input.modifiers),
    }
    assert(legacy_bytes(input, application) =~= form);
}

/// What a key that takes a parameter sends names the key and the modifiers that are held.
///
/// The last byte, and the number where that is a tilde, are those of the key whatever is held. The
/// byte before the last is one more than the bits of the modifiers, behind a semicolon; without
/// modifiers there is no semicolon. Alt also puts an escape in front.
pub proof fn law_modifiers_are_a_parameter(input: KeyInput, modes: TerminalModes)
    requires
        takes_parameter(input.code),
        !modes.kitty_keyboard,
    ensures
        ({
            let bytes = key_bytes(input, modes);
            let end = bytes.len() - 1;
            let start: int = if input.modifiers.alt { 1 } else { 0 };
            let number = tilde_number(input.code);
            &&& end >= 2
            &&& bytes[end] == final_byte(input.code)
            &&& bytes[0] == 0x1b
            &&& bytes[start] == 0x1b
            &&& bytes[start + 1] != 0x1b
            &&& any_held(input.modifiers) ==> bytes[end - 2] == 0x3b && bytes[end - 1] == 0x30
                + held_bits(input.modifiers)
            &&& !any_held(input.modifiers) ==> !bytes.contains(0x3b)
            &&& final_byte(input.code) == 0x7e ==> if number < 10 {
                bytes[start + 2] == 0x30 + number && !(0x30 <= bytes[start + 3] <= 0x39)
            } else {
                bytes[start + 2] == 0x30 + number / 10 && bytes[start + 3] == 0x30 + number % 10
                    && !(0x30 <= bytes[start + 4] <= 0x39)
            }
        }),
{
    lemma_parameter_form(input, modes.application_cursor);
    let form = parameter_form(input.code, input.modifiers, modes.application_cursor);
    let bytes = key_bytes(input, modes);
    assert(input.modifiers.alt ==> bytes =~= seq![0x1bu8] + form);
    assert(!input.modifiers.alt ==> bytes =~= form);
    if !any_held(input.modifiers) && bytes.contains(0x3b) {
        let at = choose|at: int| 0 <= at < bytes.len() && bytes[at] == 0x3b;
        assert(bytes[at] == form[at]);
    }
}

/// A key that takes a parameter sends something else with every set of modifiers, in every mode:
/// the host can always tell which are held.
pub proof fn law_modifiers_reach_the_host(a: KeyInput, b: KeyInput, modes: TerminalModes)
    requires
        takes_parameter(a.code),
        a.code == b.code,
        a.modifiers != b.modifiers,
    ensures
        key_bytes(a, modes) != key_bytes(b, modes),
{
    if modes.kitty_keyboard {
        lemma_kitty_bytes(a, modes);
        lemma_kitty_bytes(b, modes);
    } else {
        law_modifiers_are_a_parameter(a, modes);
        law_modifiers_are_a_parameter(b, modes);
        let bytes = key_bytes(a, modes);
        if bytes == key_bytes(b, modes) {
            assert(bytes[bytes.len() - 3] == 0x3b ==> bytes.contains(0x3b));
        }
    }
}

proof fn lemma_decimal_is_ascii(value: nat)
    ensures
        is_ascii_chars(decimal(value)),
{
    lemma_decimal_is_digits(value);
}

/// In the kitty protocol what a key sends ends in its modifiers and the letter `u`.
proof fn lemma_kitty_bytes(input: KeyInput, modes: TerminalModes)
    requires
        modes.kitty_keyboard,
        kitty_code(input) is Some,
    ensures
        ({
            let bytes = key_bytes(input, modes);
            let number = decimal(kitty_code(input).unwrap());
            let end = bytes.len() - 1;
            &&& end == number.len() + 4
            &&& bytes[0] == 0x1b
            &&& bytes[1] == 0x5b
            &&& bytes[end - 2] == 0x3b
            &&& bytes[end - 1] == 0x30 + held_bits(input.modifiers)
            &&& bytes[end] == 0x75
            &&& forall|i: int| 0 <= i < number.len() ==> #[trigger] bytes[i + 2] == number[i] as u8
        }),
{
    let code = kitty_code(input).unwrap();
    let chars = kitty_key(code, modifier_code(input.modifiers));
    let number = decimal(code);
    lemma_small_decimal(held_bits(input.modifiers) as nat);
    lemma_decimal_is_ascii(code);
    assert(is_ascii_chars(chars)) by {
        assert forall|i: int| 0 <= i < chars.len() implies '\0' <= #[trigger] chars[i]
            <= '\u{7f}' by {
            if 2 <= i < number.len() + 2 {
                assert(chars[i] == number[i - 2]);
            }
        }
    }
    is_ascii_chars_encode_utf8(chars);
    let bytes = encode_utf8(chars);
    let end = chars.len() - 1;
    assert(end == number.len() + 4);
    assert(bytes[0] == chars[0] as u8 && bytes[1] == chars[1] as u8);
    assert(bytes[end - 2] == chars[end - 2] as u8 && bytes[end - 1] == chars[end - 1] as u8
        && bytes[end] == chars[end] as u8);
    assert forall|i: int| 0 <= i < number.len() implies #[trigger] bytes[i + 2]
        == number[i] as u8 by {
        assert(chars[i + 2] == number[i]);
        assert(bytes[i + 2] == chars[i + 2] as u8);
    }
}

/// Whether the key stands for no text, and keyboards have it.
pub open spec fn named_key(code: KeyCode) -> bool {
    takes_parameter(code) || code is Enter || code is Tab || code is Backspace || code is Escape
}

/// Outside the kitty protocol Enter, Tab, Backspace and Escape send the control character of their
/// name, and Tab with Shift a sequence. Alt puts an escape in front of all but Escape. No other
/// modifier makes a difference.
pub proof fn law_control_characters_have_keys(input: KeyInput, modes: TerminalModes)
    requires
        !modes.kitty_keyboard,
        named_key(input.code),
        !takes_parameter(input.code),
    ensures
        ({
            let bytes = key_bytes(input, modes);
            let start: int = if input.modifiers.alt && !(input.code is Escape) { 1 } else { 0 };
            let plain = bytes.skip(start);
            &&& start == 1 ==> bytes[0] == 0x1b
            &&& bytes.len() >= start
            &&& input.code is Enter ==> plain == seq![0x0du8]
            &&& input.code is Backspace ==> plain == seq![0x7fu8]
            &&& input.code is Escape ==> plain == seq![0x1bu8]
            &&& input.code is Tab ==> plain == if input.modifiers.shift {
                seq![0x1bu8, 0x5b, 0x5a]
            } else {
                seq![0x09u8]
            }
        }),
{
    let chars = legacy_sequence(input, modes.application_cursor);
    assert(is_ascii_chars(chars));
    is_ascii_chars_encode_utf8(chars);
    let sent = encode_utf8(chars);
    let bytes = key_bytes(input, modes);
    let start: int = if input.modifiers.alt && !(input.code is Escape) { 1 } else { 0 };
    assert(bytes.skip(start) =~= sent);
    assert(sent[0] == chars[0] as u8);
    if input.code is Tab && input.modifiers.shift {
        assert(sent[1] == chars[1] as u8 && sent[2] == chars[2] as u8);
        assert(sent =~= seq![0x1bu8, 0x5b, 0x5a]);
    } else {
        assert(sent =~= seq![sent[0]]);
    }
}

/// Different keys send different bytes while the same modifiers are held, in every mode.
pub proof fn law_keys_are_told_apart(a: KeyInput, b: KeyInput, modes: TerminalModes)
    requires
        named_key(a.code),
        named_key(b.code),
        a.code != b.code,
        a.modifiers == b.modifiers,
    ensures
        key_bytes(a, modes) != key_bytes(b, modes),
{
    let bytes = key_bytes(a, modes);
    if bytes == key_bytes(b, modes) {
        if modes.kitty_keyboard {
            lemma_kitty_bytes(a, modes);
            lemma_kitty_bytes(b, modes);
            let left = decimal(kitty_code(a).unwrap());
            let right = decimal(kitty_code(b).unwrap());
            lemma_decimal_is_digits(kitty_code(a).unwrap());
            lemma_decimal_is_digits(kitty_code(b).unwrap());
            assert forall|i: int| 0 <= i < left.len() implies left[i] == right[i] by {
                assert(bytes[i + 2] == left[i] as u8);
                assert(bytes[i + 2] == right[i] as u8);
            }
            assert(left =~= right);
            law_decimal_reads_back(kitty_code(a).unwrap());
            law_decimal_reads_back(kitty_code(b).unwrap());
        } else if takes_parameter(a.code) && takes_parameter(b.code) {
            law_modifiers_are_a_parameter(a, modes);
            law_modifiers_are_a_parameter(b, modes);
        } else if takes_parameter(a.code) {
            law_modifiers_are_a_parameter(a, modes);
            law_control_characters_have_keys(b, modes);
            lemma_short_key(b, modes);
        } else if takes_parameter(b.code) {
            law_modifiers_are_a_parameter(b, modes);
            law_control_characters_have_keys(a, modes);
            lemma_short_key(a, modes);
        } else {
            law_control_characters_have_keys(a, modes);
            law_control_characters_have_keys(b, modes);
            lemma_short_key(a, modes);
            lemma_short_key(b, modes);
        }
    }
}

proof fn lemma_short_key(input: KeyInput, modes: TerminalModes)
    requires
        !modes.kitty_keyboard,
        named_key(input.code),
        !takes_parameter(input.code),
    ensures
        ({
            let bytes = key_bytes(input, modes);
            let last = bytes.last();
            &&& bytes.len() > 0
            &&& last == 0x0d || last == 0x7f || last == 0x09 || last == 0x1b || last == 0x5a
            &&& last == 0x0d <==> input.code is Enter
            &&& last == 0x7f <==> input.code is Backspace
            &&& last == 0x1b <==> input.code is Escape
        }),
{
    law_control_characters_have_keys(input, modes);
    let bytes = key_bytes(input, modes);
    let start: int = if input.modifiers.alt && !(input.code is Escape) { 1 } else { 0 };
    assert(bytes.skip(start).last() == bytes.last());
}

/// The characters that single bytes stand for.
pub open spec fn characters_of(bytes: Seq<u8>) -> Seq<char> {
    bytes.map_values(|byte: u8| byte as char)
}

/// The number of a key in the kitty protocol: that of its first character for text, the control
/// character that it stands for, or one that is reserved for the key.
pub open spec fn protocol_number(code: KeyCode) -> int {
    match code {
        KeyCode::Character(text) => text@[0] as nat as int,
        KeyCode::Enter => 0x0d,
        KeyCode::Tab => 0x09,
        KeyCode::Backspace => 0x7f,
        KeyCode::Escape => 0x1b,
        KeyCode::Left => 57350,
        KeyCode::Right => 57351,
        KeyCode::Up => 57352,
        KeyCode::Down => 57353,
        KeyCode::Home => 57360,
        KeyCode::End => 57361,
        KeyCode::Insert => 57362,
        KeyCode::Delete => 57363,
        KeyCode::PageUp => 57364,
        KeyCode::PageDown => 57365,
        KeyCode::Function(number) => 57375 + number,
    }
}

/// In the kitty protocol a key sends its number and its modifiers, from which the host can read
/// both. Text does so only with Control or Alt.
pub proof fn law_kitty_keys_send_number_and_modifiers(input: KeyInput, modes: TerminalModes)
    requires
        modes.kitty_keyboard,
        match input.code {
            KeyCode::Character(text) => text@.len() > 0 && (input.modifiers.control
                || input.modifiers.alt),
            _ => named_key(input.code),
        },
    ensures
        ({
            let bytes = key_bytes(input, modes);
            let end = bytes.len() - 1;
            let number = characters_of(bytes.subrange(2, end - 2));
            &&& end >= 5
            &&& bytes[0] == 0x1b && bytes[1] == 0x5b
            &&& read_decimal(number) == protocol_number(input.code)
            &&& bytes[end - 2] == 0x3b
            &&& bytes[end - 1] == 0x30 + held_bits(input.modifiers)
            &&& bytes[end] == 0x75
        }),
{
    lemma_kitty_bytes(input, modes);
    let code = kitty_code(input).unwrap();
    law_decimal_reads_back(code);
    let bytes = key_bytes(input, modes);
    let end = bytes.len() - 1;
    let number = characters_of(bytes.subrange(2, end - 2));
    assert forall|i: int| 0 <= i < number.len() implies number[i] == decimal(code)[i] by {
        assert(bytes[i + 2] == decimal(code)[i] as u8);
    }
    assert(number =~= decimal(code));
    assert(code == protocol_number(input.code));
}

/// Control and a letter, or a character beside the capitals, send the lowest five bits of the
/// character; a letter does so in either case. Control and a question mark send a delete, and a
/// space sends a null. With any other character Control makes no difference.
pub proof fn law_control_keeps_the_lowest_bits(input: KeyInput, modes: TerminalModes, c: char)
    requires
        !modes.kitty_keyboard,
        input.modifiers.control,
        !input.modifiers.alt,
        input.code matches KeyCode::Character(text) && text@ == seq![c],
    ensures
        '@' <= c <= '_' || 'a' <= c <= 'z' ==> key_bytes(input, modes) == seq![
            (c as u8) & 0x1f,
        ],
        c == ' ' ==> key_bytes(input, modes) == seq![0u8],
        c == '?' ==> key_bytes(input, modes) == seq![0x7fu8],
        !('@' <= c <= '_' || 'a' <= c <= 'z' || c == ' ' || c == '?') ==> key_bytes(input, modes)
            == encode_utf8(seq![c]),
{
    let byte = c as u8;
    if '@' <= c <= '_' {
        assert(byte & 0x1f == byte - 0x40) by (bit_vector)
            requires
                0x40 <= byte <= 0x5f,
        ;
    } else if 'a' <= c <= 'z' {
        assert(byte & 0x1f == byte - 0x60) by (bit_vector)
            requires
                0x61 <= byte <= 0x7a,
        ;
    }
}

/// Control makes no difference to a text of several characters.
pub proof fn law_control_leaves_longer_text_alone(input: KeyInput, modes: TerminalModes)
    requires
        !modes.kitty_keyboard,
        !input.modifiers.alt,
        input.code matches KeyCode::Character(text) && text@.len() != 1,
    ensures
        input.code matches KeyCode::Character(text) && key_bytes(input, modes) == encode_utf8(text@),
{
}

/// Outside the kitty protocol Alt puts an escape in front of text and changes nothing else of it,
/// and Shift is in the text already.
pub proof fn law_alt_is_an_escape_in_front(input: KeyInput, modes: TerminalModes)
    requires
        !modes.kitty_keyboard,
        input.code is Character,
    ensures
        ({
            let without = KeyInput {
                modifiers: Modifiers { alt: false, shift: false, ..input.modifiers },
                ..input
            };
            key_bytes(input, modes) == if input.modifiers.alt {
                seq![0x1bu8] + key_bytes(without, modes)
            } else {
                key_bytes(without, modes)
            }
        }),
{
}

/// Application mode concerns the cursor keys alone, and those only outside the kitty protocol and
/// while no modifier is held. It changes their second byte.
pub proof fn law_application_mode_concerns_cursor_keys(input: KeyInput, modes: TerminalModes)
    requires
        !modes.application_cursor,
    ensures
        ({
            let application = TerminalModes { application_cursor: true, ..modes };
            let normal = key_bytes(input, modes);
            let changed = key_bytes(input, application);
            let cursor = input.code is Up || input.code is Down || input.code is Left
                || input.code is Right;
            if cursor && !modes.kitty_keyboard && !any_held(input.modifiers) {
                normal.len() == 3 && normal[1] == 0x5b && changed == normal.update(1, 0x4f)
            } else {
                normal == changed
            }
        }),
{
    let application = TerminalModes { application_cursor: true, ..modes };
    if takes_parameter(input.code) {
        lemma_parameter_form(input, false);
        lemma_parameter_form(input, true);
        let normal = key_bytes(input, modes);
        let changed = key_bytes(input, application);
        if !modes.kitty_keyboard && !any_held(input.modifiers) {
            assert(changed =~= normal || changed =~= normal.update(1, 0x4f));
        }
    }
}

/// The modes of the mouse and of pasting make no difference to keys.
pub proof fn law_keys_ignore_other_modes(input: KeyInput, a: TerminalModes, b: TerminalModes)
    requires
        a.kitty_keyboard == b.kitty_keyboard,
        a.application_cursor == b.application_cursor,
    ensures
        key_bytes(input, a) == key_bytes(input, b),
{
}

/// The code of a mouse event adds up: each modifier that is held counts for itself, moving counts
/// on top of the button that is held, the buttons are numbered from left to right, and the wheel
/// lies above them all.
pub proof fn law_mouse_code_adds_up(input: MouseInput)
    ensures
        ({
            let shift: int = if input.modifiers.shift { 4 } else { 0 };
            let alt: int = if input.modifiers.alt { 8 } else { 0 };
            let control: int = if input.modifiers.control { 16 } else { 0 };
            let event = mouse_code(input) - shift - alt - control;
            &&& input.kind is WheelUp ==> event == 64
            &&& input.kind is WheelDown ==> event == 65
            &&& input.kind is Release ==> event == 3
            &&& input.kind is Press || input.kind is Move ==> {
                let button = if input.kind is Move { event - 32 } else { event };
                &&& input.button is Left <==> button == 0
                &&& input.button is Middle <==> button == 1
                &&& input.button is Right <==> button == 2
                &&& input.button is NoButton <==> button == 3
            }
        }),
{
}

/// From the code, and from whether a button was released, the host can tell what happened, with
/// which button, and which modifiers were held.
pub proof fn law_mouse_code_is_unambiguous(a: MouseInput, b: MouseInput)
    requires
        mouse_code(a) == mouse_code(b),
        a.kind is Release <==> b.kind is Release,
    ensures
        a.modifiers == b.modifiers,
        a.kind == b.kind,
        a.kind is Press || a.kind is Move ==> a.button == b.button,
{
}

/// In the older encoding the host reads the code, the column and the row, in this order, from one
/// byte each. What lies too far out is reported at the edge.
pub proof fn law_plain_reports_read_back(input: MouseInput, modes: TerminalModes)
    requires
        modes.mouse_tracking,
        !modes.sgr_mouse,
    ensures
        ({
            let bytes = mouse_bytes(input, modes);
            &&& bytes.len() == 6
            &&& bytes[0] == 0x1b && bytes[1] == 0x5b && bytes[2] == 0x4d
            &&& bytes[3] == mouse_code(input) + 0x20
            &&& if input.column < 223 { bytes[4] == 0x21 + input.column } else { bytes[4] == 0xff }
            &&& if input.row < 223 { bytes[5] == 0x21 + input.row } else { bytes[5] == 0xff }
        }),
{
}

/// In the SGR encoding the host reads three numbers: the code, then the column and the row, which
/// count from one. The last byte tells a release from anything else.
pub proof fn law_sgr_reports_read_back(input: MouseInput, modes: TerminalModes)
    requires
        modes.mouse_tracking,
        modes.sgr_mouse,
    ensures
        ({
            let bytes = mouse_bytes(input, modes);
            let code_end: int = 3 + decimal(mouse_code(input) as nat).len() as int;
            let column_end: int = code_end + 1 + decimal((input.column + 1) as nat).len();
            let row_end: int = column_end + 1 + decimal((input.row + 1) as nat).len();
            &&& bytes.len() == row_end + 1
            &&& bytes[0] == 0x1b && bytes[1] == 0x5b && bytes[2] == 0x3c
            &&& read_decimal(characters_of(bytes.subrange(3, code_end))) == mouse_code(input)
            &&& bytes[code_end] == 0x3b
            &&& read_decimal(characters_of(bytes.subrange(code_end + 1, column_end)))
                == input.column + 1
            &&& bytes[column_end] == 0x3b
            &&& read_decimal(characters_of(bytes.subrange(column_end + 1, row_end)))
                == input.row + 1
            &&& bytes[row_end] == 0x6d <==> input.kind is Release
            &&& bytes[row_end] == 0x4d <==> !(input.kind is Release)
        }),
{
    let bytes = mouse_bytes(input, modes);
    let code = mouse_code(input) as nat;
    let column = (input.column + 1) as nat;
    let row = (input.row + 1) as nat;
    law_decimal_bytes_are_its_digits(code);
    law_decimal_bytes_are_its_digits(column);
    law_decimal_bytes_are_its_digits(row);
    let code_end: int = 3 + decimal(code).len() as int;
    let column_end: int = code_end + 1 + decimal(column).len();
    let row_end: int = column_end + 1 + decimal(row).len();
    assert(bytes.subrange(3, code_end) =~= decimal_bytes(code));
    assert(bytes.subrange(code_end + 1, column_end) =~= decimal_bytes(column));
    assert(bytes.subrange(column_end + 1, row_end) =~= decimal_bytes(row));
    lemma_digits_of_bytes(code);
    lemma_digits_of_bytes(column);
    lemma_digits_of_bytes(row);
}

proof fn lemma_digits_of_bytes(value: nat)
    ensures
        read_decimal(characters_of(decimal_bytes(value))) == value,
{
    law_decimal_reads_back(value);
    law_decimal_bytes_are_its_digits(value);
    let read = characters_of(decimal_bytes(value));
    assert forall|i: int| 0 <= i < read.len() implies read[i] == decimal(value)[i] by {
        assert(decimal_bytes(value)[i] as int == decimal(value)[i] as int);
    }
    assert(read =~= decimal(value));
}

/// The keyboard's modes and pasting make no difference to the mouse.
pub proof fn law_mouse_ignores_other_modes(input: MouseInput, a: TerminalModes, b: TerminalModes)
    requires
        a.mouse_tracking == b.mouse_tracking,
        a.sgr_mouse == b.sgr_mouse,
    ensures
        mouse_bytes(input, a) == mouse_bytes(input, b),
{
}

/// What closes a bracketed paste is taken out wherever it stands behind text without escapes: what
/// is before it stays as it is, and what is behind it is treated alike.
pub proof fn law_closing_markers_are_taken_out(before: Seq<char>, after: Seq<char>)
    requires
        !before.contains('\x1b'),
    ensures
        ({
            let marker = seq!['\x1b', '[', '2', '0', '1', '~'];
            &&& without_marker(before + marker + after, paste_end()) == before + without_marker(
                after,
                paste_end(),
            )
            &&& without_marker(before, paste_end()) == before
        }),
    decreases before.len(),
{
    reveal(paste_end);
    let marker = seq!['\x1b', '[', '2', '0', '1', '~'];
    let whole = before + marker + after;
    if before.len() == 0 {
        assert(whole.subrange(0, 6) =~= marker);
        assert(marker =~= paste_end());
        assert(whole.skip(6) =~= after);
        assert(before + without_marker(after, paste_end()) =~= without_marker(after, paste_end()));
    } else {
        let rest = before.skip(1);
        assert(before.contains(before[0]));
        assert forall|i: int| 0 <= i < rest.len() implies rest[i] != '\x1b' by {
            assert(before.contains(before[i + 1]));
        }
        law_closing_markers_are_taken_out(rest, after);
        assert(whole.subrange(0, 6)[0] == before[0]);
        assert(paste_end()[0] == '\x1b');
        assert(whole.skip(1) =~= rest + marker + after);
        assert(without_marker(whole, paste_end()) =~= before + without_marker(after, paste_end()));
        if before.len() >= 6 {
            assert(before.subrange(0, 6)[0] == before[0]);
            assert(seq![before[0]] + rest =~= before);
        }
    }
}

/// In bracketed mode what is pasted stands between an opening and a closing marker; text without
/// escapes stands there as it is.
pub proof fn law_bracketed_paste_is_bracketed(text: Seq<char>, modes: TerminalModes)
    requires
        modes.bracketed_paste,
    ensures
        ({
            let sent = paste_text(text, modes);
            &&& sent.len() >= 12
            &&& sent.take(6) == seq!['\x1b', '[', '2', '0', '0', '~']
            &&& sent.skip(sent.len() - 6) == seq!['\x1b', '[', '2', '0', '1', '~']
            &&& !text.contains('\x1b') ==> sent.subrange(6, sent.len() - 6) == text
        }),
{
    reveal(paste_start);
    reveal(paste_end);
    let sent = paste_text(text, modes);
    assert(sent.take(6) =~= seq!['\x1b', '[', '2', '0', '0', '~']);
    assert(sent.skip(sent.len() - 6) =~= seq!['\x1b', '[', '2', '0', '1', '~']);
    if !text.contains('\x1b') {
        law_closing_markers_are_taken_out(text, Seq::empty());
        assert(sent.subrange(6, sent.len() - 6) =~= text);
    }
}

} // verus!
