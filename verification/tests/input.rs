//! Encoding of keys, mouse events and pasted text.

use matcha::terminal::input::{
    control_character, csi_final, csi_tilde, cursor_sequence, encode_key, encode_mouse,
    encode_paste, function_key, kitty_sequence, modifier_parameter, KeyCode, KeyInput, Modifiers,
    MouseButton, MouseInput, MouseKind,
};
use matcha::terminal::types::TerminalModes;

fn key(code: KeyCode) -> KeyInput {
    KeyInput {
        code,
        modifiers: Modifiers::default(),
    }
}

#[test]
fn encodes_control_c_as_interrupt() {
    let mut input = key(KeyCode::Character("c".into()));
    input.modifiers.control = true;
    assert_eq!(encode_key(&input, TerminalModes::default()), vec![3]);
}

#[test]
fn respects_application_cursor_mode() {
    assert_eq!(
        encode_key(&key(KeyCode::Up), TerminalModes::default()),
        b"\x1b[A"
    );
    assert_eq!(
        encode_key(
            &key(KeyCode::Up),
            TerminalModes {
                application_cursor: true,
                ..TerminalModes::default()
            },
        ),
        b"\x1bOA"
    );
}

#[test]
fn wraps_and_sanitizes_bracketed_paste() {
    let encoded = encode_paste(
        "hello\x1b[201~world",
        TerminalModes {
            bracketed_paste: true,
            ..TerminalModes::default()
        },
    );
    assert_eq!(encoded, b"\x1b[200~helloworld\x1b[201~");
}

#[test]
fn encodes_sgr_mouse_clicks() {
    let bytes = encode_mouse(
        MouseInput {
            kind: MouseKind::Press,
            button: MouseButton::Left,
            row: 4,
            column: 9,
            modifiers: Modifiers::default(),
        },
        TerminalModes {
            mouse_tracking: true,
            sgr_mouse: true,
            ..TerminalModes::default()
        },
    );
    assert_eq!(bytes, b"\x1b[<0;10;5M");
}

#[test]
fn encodes_kitty_modified_keys() {
    let input = KeyInput {
        code: KeyCode::Character("c".into()),
        modifiers: Modifiers {
            control: true,
            ..Modifiers::default()
        },
    };
    assert_eq!(
        encode_key(
            &input,
            TerminalModes {
                kitty_keyboard: true,
                ..TerminalModes::default()
            }
        ),
        b"\x1b[99;5u"
    );
}

#[test]
fn control_characters_are_bytes() {
    assert_eq!(control_character("@"), Some(0));
    assert_eq!(control_character(" "), Some(0));
    assert_eq!(control_character("a"), Some(1));
    assert_eq!(control_character("Z"), Some(26));
    assert_eq!(control_character("["), Some(27));
    assert_eq!(control_character("\\"), Some(28));
    assert_eq!(control_character("]"), Some(29));
    assert_eq!(control_character("^"), Some(30));
    assert_eq!(control_character("_"), Some(31));
    assert_eq!(control_character("?"), Some(127));
    assert_eq!(control_character("1"), None);
    assert_eq!(control_character("ab"), None);
    assert_eq!(control_character(""), None);
}

#[test]
fn typed_text_is_sent_verbatim_in_every_mode() {
    for kitty_keyboard in [false, true] {
        let modes = TerminalModes { kitty_keyboard, ..TerminalModes::default() };
        let mut typed = key(KeyCode::Character("É界".into()));
        typed.modifiers.shift = true;
        assert_eq!(encode_key(&typed, modes), "É界".as_bytes());
    }
}

#[test]
fn modified_space_is_encoded() {
    let mut input = key(KeyCode::Character(" ".into()));
    assert_eq!(encode_key(&input, TerminalModes::default()), b" ");
    input.modifiers.control = true;
    assert_eq!(encode_key(&input, TerminalModes::default()), vec![0]);
    input.modifiers.alt = true;
    assert_eq!(encode_key(&input, TerminalModes::default()), vec![0x1b, 0]);
}

#[test]
fn modifiers_are_counted() {
    assert_eq!(modifier_parameter(Modifiers::default()), 1);
    assert_eq!(modifier_parameter(Modifiers { shift: true, alt: false, control: false }), 2);
    assert_eq!(modifier_parameter(Modifiers { shift: true, alt: true, control: true }), 8);
}

#[test]
fn sequences_have_their_forms() {
    assert_eq!(cursor_sequence('A', 1, false), "\x1b[A");
    assert_eq!(cursor_sequence('A', 1, true), "\x1bOA");
    assert_eq!(cursor_sequence('A', 5, true), "\x1b[1;5A");
    assert_eq!(csi_final('H', 1), "\x1b[H");
    assert_eq!(csi_final('H', 3), "\x1b[1;3H");
    assert_eq!(csi_tilde(5, 1), "\x1b[5~");
    assert_eq!(csi_tilde(24, 6), "\x1b[24;6~");
    let forms: Vec<String> = (1..=13).map(|number| function_key(number, 1)).collect();
    assert_eq!(
        forms,
        vec![
            "\x1bOP", "\x1bOQ", "\x1bOR", "\x1bOS", "\x1b[15~", "\x1b[17~", "\x1b[18~", "\x1b[19~",
            "\x1b[20~", "\x1b[21~", "\x1b[23~", "\x1b[24~", ""
        ]
    );
    assert_eq!(function_key(1, 5), "\x1bO1;5P");
}

#[test]
fn alt_puts_an_escape_in_front() {
    let alt = Modifiers { shift: false, alt: true, control: false };
    let modes = TerminalModes::default();
    let typed = KeyInput { code: KeyCode::Character("é".into()), modifiers: alt };
    assert_eq!(encode_key(&typed, modes), "\x1bé".as_bytes());
    let enter = KeyInput { code: KeyCode::Enter, modifiers: alt };
    assert_eq!(encode_key(&enter, modes), b"\x1b\r");
    let escape = KeyInput { code: KeyCode::Escape, modifiers: alt };
    assert_eq!(encode_key(&escape, modes), b"\x1b");
    let tab = KeyInput {
        code: KeyCode::Tab,
        modifiers: Modifiers { shift: true, alt: false, control: false },
    };
    assert_eq!(encode_key(&tab, modes), b"\x1b[Z");
}

#[test]
fn plain_keys_are_encoded() {
    let modes = TerminalModes::default();
    assert_eq!(encode_key(&key(KeyCode::Tab), modes), b"\t");
    assert_eq!(encode_key(&key(KeyCode::Backspace), modes), b"\x7f");
    assert_eq!(encode_key(&key(KeyCode::Down), modes), b"\x1b[B");
    assert_eq!(encode_key(&key(KeyCode::Right), modes), b"\x1b[C");
    assert_eq!(encode_key(&key(KeyCode::Left), modes), b"\x1b[D");
    assert_eq!(encode_key(&key(KeyCode::End), modes), b"\x1b[F");
    assert_eq!(encode_key(&key(KeyCode::Insert), modes), b"\x1b[2~");
    assert_eq!(encode_key(&key(KeyCode::Delete), modes), b"\x1b[3~");
    assert_eq!(encode_key(&key(KeyCode::PageDown), modes), b"\x1b[6~");
    assert_eq!(encode_key(&key(KeyCode::Function(200)), modes), b"");
}

#[test]
fn kitty_numbers_keys() {
    assert_eq!(kitty_sequence(&key(KeyCode::Character("c".into()))), None);
    assert_eq!(kitty_sequence(&key(KeyCode::Enter)).as_deref(), Some("\x1b[13;1u"));
    assert_eq!(kitty_sequence(&key(KeyCode::PageDown)).as_deref(), Some("\x1b[57365;1u"));
    assert_eq!(kitty_sequence(&key(KeyCode::Function(12))).as_deref(), Some("\x1b[57387;1u"));
    assert_eq!(kitty_sequence(&key(KeyCode::Function(0))), None);
    assert_eq!(kitty_sequence(&key(KeyCode::Function(13))), None);
    let mut empty = key(KeyCode::Character(String::new()));
    empty.modifiers.alt = true;
    assert_eq!(kitty_sequence(&empty), None);
}

#[test]
fn mouse_reports_follow_the_mode() {
    let mut input = MouseInput {
        kind: MouseKind::Move,
        button: MouseButton::Right,
        row: 300,
        column: 0,
        modifiers: Modifiers { shift: false, alt: true, control: true },
    };
    let mut modes = TerminalModes::default();
    assert_eq!(encode_mouse(input, modes), b"");
    modes.mouse_tracking = true;
    assert_eq!(encode_mouse(input, modes), vec![0x1b, b'[', b'M', 90, 33, 255]);
    modes.sgr_mouse = true;
    assert_eq!(encode_mouse(input, modes), b"\x1b[<58;1;301M");
    input.kind = MouseKind::Release;
    assert_eq!(encode_mouse(input, modes), b"\x1b[<27;1;301m");
    input.kind = MouseKind::WheelDown;
    input.modifiers = Modifiers::default();
    assert_eq!(encode_mouse(input, modes), b"\x1b[<65;1;301M");
    input.kind = MouseKind::WheelUp;
    input.modifiers.shift = true;
    assert_eq!(encode_mouse(input, modes), b"\x1b[<68;1;301M");
}

#[test]
fn plain_paste_is_verbatim() {
    let text = "a\x1b[201~\r\nb";
    assert_eq!(encode_paste(text, TerminalModes::default()), text.as_bytes());
}

#[test]
fn bracketed_paste_closes_once() {
    let modes = TerminalModes { bracketed_paste: true, ..TerminalModes::default() };
    for text in ["", "plain", "\x1b[201", "\x1b[201~\x1b[201~", "é\x1b[2\x1b[201~x"] {
        let encoded = String::from_utf8(encode_paste(text, modes)).expect("text stays text");
        assert_eq!(encoded.matches("\x1b[201~").count(), 1);
        assert!(encoded.ends_with("\x1b[201~"));
    }
    assert_eq!(encode_paste("ab", modes), b"\x1b[200~ab\x1b[201~");
}
