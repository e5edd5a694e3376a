//! Keys: shortcuts of the window and input for the terminal.

use vstd::prelude::*;
use vstd::string::*;
use vstd::utf8::*;

use crate::terminal::encoding::{final_byte, named_key, tilde_number};
use crate::terminal::input::{
    encode_key, encode_paste, key_bytes, law_text_is_sent_verbatim, paste_text, KeyCode, KeyInput, Modifiers,
};
use crate::terminal::types::{SearchDirection, TerminalModes};
use crate::text::{
    ascii_case_equal, ascii_lower, law_lowering_concerns_capitals, same_text,
    same_text_ignoring_ascii_case,
};
use crate::ui::strings::{contains_multiple_lines, law_line_breaks_make_lines, multiple_lines};

verus! {

/// Keys that are known by a name.
#[derive(Clone, Copy, Debug, Eq, PartialEq, Structural)]
pub enum NamedKey {
    Enter,
    Tab,
    Backspace,
    Escape,
    Space,
    ArrowUp,
    ArrowDown,
    ArrowRight,
    ArrowLeft,
    Home,
    End,
    Insert,
    Delete,
    PageUp,
    PageDown,
    F1,
    F2,
    F3,
    F4,
    F5,
    F6,
    F7,
    F8,
    F9,
    F10,
    F11,
    F12,
    Unknown,
}

/// What a key means on the user's keyboard.
#[derive(Clone, Debug, Eq, PartialEq)]
pub enum LogicalKey {
    Character(String),
    Named(NamedKey),
    Other,
}

#[derive(Clone, Debug, Eq, PartialEq)]
pub struct KeyPress {
    pub key: LogicalKey,
    pub modifiers: Modifiers,
}

/// The number of a function key.
pub open spec fn function_key_number(key: NamedKey) -> Option<u8> {
    match key {
        NamedKey::F1 => Some(1),
        NamedKey::F2 => Some(2),
        NamedKey::F3 => Some(3),
        NamedKey::F4 => Some(4),
        NamedKey::F5 => Some(5),
        NamedKey::F6 => Some(6),
        NamedKey::F7 => Some(7),
        NamedKey::F8 => Some(8),
        NamedKey::F9 => Some(9),
        NamedKey::F10 => Some(10),
        NamedKey::F11 => Some(11),
        NamedKey::F12 => Some(12),
        _ => None,
    }
}

/// The number of a function key.
pub fn function_number(key: NamedKey) -> (res: Option<u8>)
    ensures
        res == function_key_number(key),
{
    match key {
        NamedKey::F1 => Some(1),
        NamedKey::F2 => Some(2),
        NamedKey::F3 => Some(3),
        NamedKey::F4 => Some(4),
        NamedKey::F5 => Some(5),
        NamedKey::F6 => Some(6),
        NamedKey::F7 => Some(7),
        NamedKey::F8 => Some(8),
        NamedKey::F9 => Some(9),
        NamedKey::F10 => Some(10),
        NamedKey::F11 => Some(11),
        NamedKey::F12 => Some(12),
        _ => None,
    }
}

/// Whether `code` is what `key` means to the terminal. The space bar types a space.
pub open spec fn means(key: LogicalKey, code: KeyCode) -> bool {
    match key {
        LogicalKey::Character(text) => code matches KeyCode::Character(typed) && typed@ == text@,
        LogicalKey::Named(NamedKey::Space) => code matches KeyCode::Character(typed) && typed@
            == " "@,
        LogicalKey::Named(NamedKey::Enter) => code is Enter,
        LogicalKey::Named(NamedKey::Tab) => code is Tab,
        LogicalKey::Named(NamedKey::Backspace) => code is Backspace,
        LogicalKey::Named(NamedKey::Escape) => code is Escape,
        LogicalKey::Named(NamedKey::ArrowUp) => code is Up,
        LogicalKey::Named(NamedKey::ArrowDown) => code is Down,
        LogicalKey::Named(NamedKey::ArrowRight) => code is Right,
        LogicalKey::Named(NamedKey::ArrowLeft) => code is Left,
        LogicalKey::Named(NamedKey::Home) => code is Home,
        LogicalKey::Named(NamedKey::End) => code is End,
        LogicalKey::Named(NamedKey::Insert) => code is Insert,
        LogicalKey::Named(NamedKey::Delete) => code is Delete,
        LogicalKey::Named(NamedKey::PageUp) => code is PageUp,
        LogicalKey::Named(NamedKey::PageDown) => code is PageDown,
        LogicalKey::Named(named) => code matches KeyCode::Function(number) && function_key_number(
            named,
        ) == Some(number),
        LogicalKey::Other => false,
    }
}

/// Whether a key means something to the terminal.
pub open spec fn meaningful(key: LogicalKey) -> bool {
    match key {
        LogicalKey::Character(_) => true,
        LogicalKey::Named(named) => named != NamedKey::Unknown,
        LogicalKey::Other => false,
    }
}

/// What a key means to the terminal, if anything.
pub fn map_key(press: &KeyPress) -> (res: Option<KeyInput>)
    ensures
        match res {
            Some(input) => meaningful(press.key) && means(press.key, input.code) && input.modifiers
                == press.modifiers,
            None => !meaningful(press.key),
        },
{
    let code = match &press.key {
        LogicalKey::Character(text) => KeyCode::Character(text.clone()),
        LogicalKey::Named(named) => match *named {
            NamedKey::Space => KeyCode::Character(" ".to_owned()),
            NamedKey::Enter => KeyCode::Enter,
            NamedKey::Tab => KeyCode::Tab,
            NamedKey::Backspace => KeyCode::Backspace,
            NamedKey::Escape => KeyCode::Escape,
            NamedKey::ArrowUp => KeyCode::Up,
            NamedKey::ArrowDown => KeyCode::Down,
            NamedKey::ArrowRight => KeyCode::Right,
            NamedKey::ArrowLeft => KeyCode::Left,
            NamedKey::Home => KeyCode::Home,
            NamedKey::End => KeyCode::End,
            NamedKey::Insert => KeyCode::Insert,
            NamedKey::Delete => KeyCode::Delete,
            NamedKey::PageUp => KeyCode::PageUp,
            NamedKey::PageDown => KeyCode::PageDown,
            other => match function_number(other) {
                Some(number) => KeyCode::Function(number),
                None => {
                    return None;
                },
            },
        },
        LogicalKey::Other => {
            return None;
        },
    };
    Some(KeyInput { code, modifiers: press.modifiers })
}

/// What the window does on a shortcut.
#[derive(Clone, Copy, Debug, Eq, PartialEq, Structural)]
pub enum Shortcut {
    Copy,
    Paste,
    OpenSearch,
    OpenSettings,
    EnlargeFont,
    ShrinkFont,
    ResetFont,
}

/// The shortcut that a key stands for. All take Control; copying and pasting take Shift as well,
/// so that Control and C alone still interrupt.
pub open spec fn shortcut_of(press: KeyPress) -> Option<Shortcut> {
    match press.key {
        LogicalKey::Character(text) if press.modifiers.control => {
            if press.modifiers.shift && ascii_case_equal(text@, "c"@) {
                Some(Shortcut::Copy)
            } else if press.modifiers.shift && ascii_case_equal(text@, "v"@) {
                Some(Shortcut::Paste)
            } else if text@ == "f"@ || text@ == "F"@ {
                Some(Shortcut::OpenSearch)
            } else if text@ == ","@ {
                Some(Shortcut::OpenSettings)
            } else if text@ == "+"@ || text@ == "="@ {
                Some(Shortcut::EnlargeFont)
            } else if text@ == "-"@ {
                Some(Shortcut::ShrinkFont)
            } else if text@ == "0"@ {
                Some(Shortcut::ResetFont)
            } else {
                None
            }
        },
        _ => None,
    }
}

/// The shortcut that a key stands for.
pub fn find_shortcut(press: &KeyPress) -> (res: Option<Shortcut>)
    ensures
        res == shortcut_of(*press),
{
    if !press.modifiers.control {
        return None;
    }
    let text = match &press.key {
        LogicalKey::Character(text) => text.as_str(),
        _ => {
            return None;
        },
    };
    let shift = press.modifiers.shift;
    if shift && same_text_ignoring_ascii_case(text, "c") {
        Some(Shortcut::Copy)
    } else if shift && same_text_ignoring_ascii_case(text, "v") {
        Some(Shortcut::Paste)
    } else if same_text(text, "f") || same_text(text, "F") {
        Some(Shortcut::OpenSearch)
    } else if same_text(text, ",") {
        Some(Shortcut::OpenSettings)
    } else if same_text(text, "+") || same_text(text, "=") {
        Some(Shortcut::EnlargeFont)
    } else if same_text(text, "-") {
        Some(Shortcut::ShrinkFont)
    } else if same_text(text, "0") {
        Some(Shortcut::ResetFont)
    } else {
        None
    }
}

/// What is to be done about a key.
#[derive(Clone, Debug, Eq, PartialEq)]
pub enum KeyCommand {
    Window(Shortcut),
    Send(Vec<u8>),
    Ignore,
}

/// Whether `command` is what is to be done about a key: a shortcut is for the window, any other key
/// that means something goes to the terminal.
pub open spec fn answers_key(command: KeyCommand, press: KeyPress, modes: TerminalModes) -> bool {
    match shortcut_of(press) {
        Some(shortcut) => command == KeyCommand::Window(shortcut),
        None => match command {
            KeyCommand::Window(_) => false,
            KeyCommand::Send(bytes) => meaningful(press.key) && exists|code: KeyCode| #[trigger]
                means(press.key, code) && bytes@ == key_bytes(
                    KeyInput { code, modifiers: press.modifiers },
                    modes,
                ),
            KeyCommand::Ignore => !meaningful(press.key),
        },
    }
}

/// Decides what is to be done about a key: a shortcut is for the window, any other key that means
/// something goes to the terminal.
pub fn handle_key(press: &KeyPress, modes: TerminalModes) -> (res: KeyCommand)
    ensures
        answers_key(res, *press, modes),
{
    if let Some(shortcut) = find_shortcut(press) {
        return KeyCommand::Window(shortcut);
    }
    match map_key(press) {
        Some(input) => KeyCommand::Send(encode_key(&input, modes)),
        None => KeyCommand::Ignore,
    }
}

/// What is to be done about text that the user wants to paste.
#[derive(Clone, Debug, Eq, PartialEq)]
pub enum PasteDecision {
    Confirm(String),
    Send(Vec<u8>),
}

/// Whether `decision` is what is to be done about `text`: several lines take a confirmation where
/// the user wants to be asked.
pub open spec fn decides_paste(
    decision: PasteDecision,
    text: Seq<char>,
    confirm_multiline: bool,
    modes: TerminalModes,
) -> bool {
    match decision {
        PasteDecision::Confirm(asked) => confirm_multiline && multiple_lines(text) && asked@
            == text,
        PasteDecision::Send(bytes) => !(confirm_multiline && multiple_lines(text)) && bytes@
            == encode_utf8(paste_text(text, modes)),
    }
}

/// Decides what is to be done about text that the user wants to paste: several lines take a
/// confirmation where the user wants to be asked.
pub fn decide_paste(text: String, confirm_multiline: bool, modes: TerminalModes) -> (res:
    PasteDecision)
    ensures
        decides_paste(res, text@, confirm_multiline, modes),
{
    if confirm_multiline && contains_multiple_lines(text.as_str()) {
        PasteDecision::Confirm(text)
    } else {
        PasteDecision::Send(encode_paste(text.as_str(), modes))
    }
}

/// What is to be done about a key while searching.
#[derive(Clone, Copy, Debug, Eq, PartialEq, Structural)]
pub enum SearchCommand {
    Go(SearchDirection),
    Close,
    Ignore,
}

/// What is to be done about a key while searching.
pub open spec fn search_command(press: KeyPress) -> SearchCommand {
    match press.key {
        LogicalKey::Named(NamedKey::Enter) => SearchCommand::Go(
            if press.modifiers.shift {
                SearchDirection::Previous
            } else {
                SearchDirection::Next
            },
        ),
        LogicalKey::Named(NamedKey::Escape) => SearchCommand::Close,
        _ => SearchCommand::Ignore,
    }
}

/// Decides what is to be done about a key while searching.
pub fn search_key(press: &KeyPress) -> (res: SearchCommand)
    ensures
        res == search_command(*press),
{
    match &press.key {
        LogicalKey::Named(NamedKey::Enter) => {
            if press.modifiers.shift {
                SearchCommand::Go(SearchDirection::Previous)
            } else {
                SearchCommand::Go(SearchDirection::Next)
            }
        },
        LogicalKey::Named(NamedKey::Escape) => SearchCommand::Close,
        _ => SearchCommand::Ignore,
    }
}

/// A key without Control is no shortcut of the window, and neither is Control with C or V unless
/// Shift is held.
pub proof fn law_shortcuts_leave_input_alone(press: KeyPress)
    ensures
        !press.modifiers.control ==> shortcut_of(press) is None,
        (press.key matches LogicalKey::Character(text) && !press.modifiers.shift && (
        ascii_case_equal(text@, "c"@) || ascii_case_equal(text@, "v"@))) ==> shortcut_of(
            press,
        ) is None,
{
    reveal_strlit("c");
    reveal_strlit("v");
    reveal_strlit("f");
    reveal_strlit("F");
    reveal_strlit(",");
    reveal_strlit("+");
    reveal_strlit("=");
    reveal_strlit("-");
    reveal_strlit("0");
    if let LogicalKey::Character(text) = press.key {
        if ascii_case_equal(text@, "c"@) || ascii_case_equal(text@, "v"@) {
            let letter = text@[0];
            assert(ascii_lower(letter) == 'c' || ascii_lower(letter) == 'v');
            assert(letter != 'f' && letter != 'F' && letter != ',' && letter != '+' && letter
                != '=' && letter != '-' && letter != '0');
            assert("f"@[0] == 'f' && "F"@[0] == 'F' && ","@[0] == ',' && "+"@[0] == '+' && "="@[0]
                == '=' && "-"@[0] == '-' && "0"@[0] == '0');
        }
    }
}

/// Keys with a name send what the terminal knows them by, whatever modifiers are held: the arrow
/// keys, Home and End by their last byte, the others by their number. The names of the function keys
/// count up.
pub proof fn law_named_keys_send_their_sequences(named: NamedKey, code: KeyCode)
    requires
        means(LogicalKey::Named(named), code),
    ensures
        named is Enter ==> code is Enter,
        named is Tab ==> code is Tab,
        named is Backspace ==> code is Backspace,
        named is Escape ==> code is Escape,
        named is Space ==> (code matches KeyCode::Character(typed) && typed@ == seq![' ']),
        named is ArrowUp ==> final_byte(code) == 0x41,
        named is ArrowDown ==> final_byte(code) == 0x42,
        named is ArrowRight ==> final_byte(code) == 0x43,
        named is ArrowLeft ==> final_byte(code) == 0x44,
        named is Home ==> final_byte(code) == 0x48,
        named is End ==> final_byte(code) == 0x46,
        named is Insert ==> final_byte(code) == 0x7e && tilde_number(code) == 2,
        named is Delete ==> final_byte(code) == 0x7e && tilde_number(code) == 3,
        named is PageUp ==> final_byte(code) == 0x7e && tilde_number(code) == 5,
        named is PageDown ==> final_byte(code) == 0x7e && tilde_number(code) == 6,
        named is F1 ==> final_byte(code) == 0x50,
        named is F2 ==> final_byte(code) == 0x51,
        named is F3 ==> final_byte(code) == 0x52,
        named is F4 ==> final_byte(code) == 0x53,
        named is F5 ==> tilde_number(code) == 15,
        named is F6 ==> tilde_number(code) == 17,
        named is F7 ==> tilde_number(code) == 18,
        named is F8 ==> tilde_number(code) == 19,
        named is F9 ==> tilde_number(code) == 20,
        named is F10 ==> tilde_number(code) == 21,
        named is F11 ==> tilde_number(code) == 23,
        named is F12 ==> tilde_number(code) == 24,
        !(named is Space) ==> named_key(code),
{
    reveal_strlit(" ");
    assert(" "@ =~= seq![' ']);
}

/// Different keys with a name never mean the same, and each that is known means something.
pub proof fn law_named_keys_are_told_apart(a: NamedKey, b: NamedKey, code: KeyCode)
    ensures
        means(LogicalKey::Named(a), code) && means(LogicalKey::Named(b), code) ==> a == b,
        meaningful(LogicalKey::Named(a)) <==> !(a is Unknown),
        !means(LogicalKey::Named(NamedKey::Unknown), code),
        !means(LogicalKey::Other, code),
        !meaningful(LogicalKey::Other),
{
}

/// Text that is typed means itself.
pub proof fn law_typed_text_means_itself(text: String, code: KeyCode)
    ensures
        meaningful(LogicalKey::Character(text)),
        means(LogicalKey::Character(text), code) <==> (code matches KeyCode::Character(typed)
            && typed@ == text@),
{
}

/// Which characters are shortcuts, with Control held: copying and pasting with Shift as well, in
/// either case. No other character is, and no text of several characters.
pub proof fn law_shortcuts_are_single_characters(press: KeyPress, text: String)
    requires
        press.key == LogicalKey::Character(text),
        press.modifiers.control,
    ensures
        ({
            let shortcut = shortcut_of(press);
            let shift = press.modifiers.shift;
            &&& shortcut == Some(Shortcut::Copy) <==> shift && (text@ == seq!['c'] || text@
                == seq!['C'])
            &&& shortcut == Some(Shortcut::Paste) <==> shift && (text@ == seq!['v'] || text@
                == seq!['V'])
            &&& shortcut == Some(Shortcut::OpenSearch) <==> text@ == seq!['f'] || text@
                == seq!['F']
            &&& shortcut == Some(Shortcut::OpenSettings) <==> text@ == seq![',']
            &&& shortcut == Some(Shortcut::EnlargeFont) <==> text@ == seq!['+'] || text@
                == seq!['=']
            &&& shortcut == Some(Shortcut::ShrinkFont) <==> text@ == seq!['-']
            &&& shortcut == Some(Shortcut::ResetFont) <==> text@ == seq!['0']
        }),
{
    reveal_strlit("c");
    reveal_strlit("v");
    reveal_strlit("f");
    reveal_strlit("F");
    reveal_strlit(",");
    reveal_strlit("+");
    reveal_strlit("=");
    reveal_strlit("-");
    reveal_strlit("0");
    assert("f"@ =~= seq!['f'] && "F"@ =~= seq!['F'] && ","@ =~= seq![','] && "+"@ =~= seq!['+']
        && "="@ =~= seq!['='] && "-"@ =~= seq!['-'] && "0"@ =~= seq!['0']);
    lemma_one_letter(text@, 'c', 'C');
    lemma_one_letter(text@, 'v', 'V');
    assert("c"@ =~= seq!['c'] && "v"@ =~= seq!['v']);
    lemma_single(text@);
}

proof fn lemma_single(text: Seq<char>)
    ensures
        forall|c: char| text == #[trigger] seq![c] ==> text[0] == c,
{
}

proof fn lemma_one_letter(text: Seq<char>, small: char, capital: char)
    requires
        'a' <= small <= 'z',
        capital as u32 + 32 == small as u32,
    ensures
        ascii_case_equal(text, seq![small]) <==> text == seq![small] || text == seq![capital],
{
    law_lowering_concerns_capitals(small);
    law_lowering_concerns_capitals(capital);
    if text.len() == 1 {
        law_lowering_concerns_capitals(text[0]);
        assert(text =~= seq![text[0]]);
        assert(seq![small][0] == small);
        if ascii_case_equal(text, seq![small]) {
            assert(ascii_lower(text[0]) == ascii_lower(seq![small][0]));
        }
    }
}

/// Nothing with a line break is pasted unasked where the user wants to be asked, and the user is asked
/// about nothing else. What the user is asked about is the text itself.
pub proof fn law_line_breaks_are_asked_about(
    decision: PasteDecision,
    text: Seq<char>,
    confirm_multiline: bool,
    modes: TerminalModes,
)
    requires
        decides_paste(decision, text, confirm_multiline, modes),
    ensures
        decision is Confirm <==> confirm_multiline && exists|i: int|
            0 <= i < text.len() && (#[trigger] text[i] == '\n' || text[i] == '\r'),
        decision matches PasteDecision::Confirm(asked) ==> asked@ == text,
        decision matches PasteDecision::Send(bytes) ==> bytes@ == encode_utf8(
            paste_text(text, modes),
        ),
{
    law_line_breaks_make_lines(text);
}

/// While searching Enter goes on to the next match, and with Shift back to the one before. Escape
/// ends the search. No other key does anything.
pub proof fn law_enter_goes_through_the_matches(press: KeyPress)
    ensures
        press.key == LogicalKey::Named(NamedKey::Enter) && !press.modifiers.shift ==> search_command(
            press,
        ) == SearchCommand::Go(SearchDirection::Next),
        press.key == LogicalKey::Named(NamedKey::Enter) && press.modifiers.shift ==> search_command(
            press,
        ) == SearchCommand::Go(SearchDirection::Previous),
        search_command(press) == SearchCommand::Close <==> press.key == LogicalKey::Named(
            NamedKey::Escape,
        ),
        press.key != LogicalKey::Named(NamedKey::Enter) && press.key != LogicalKey::Named(
            NamedKey::Escape,
        ) ==> search_command(press) == SearchCommand::Ignore,
{
}

/// A shortcut never reaches the shell. Any other key that means something does, with the modifiers
/// that are held: text without Control and Alt arrives as it was typed.
pub proof fn law_typed_text_reaches_the_shell(
    command: KeyCommand,
    press: KeyPress,
    modes: TerminalModes,
)
    requires
        answers_key(command, press, modes),
    ensures
        command is Window <==> shortcut_of(press) is Some,
        command matches KeyCommand::Window(shortcut) ==> shortcut_of(press) == Some(shortcut),
        command is Send ==> shortcut_of(press) is None,
        (press.key matches LogicalKey::Character(text) && !press.modifiers.control
            && !press.modifiers.alt) ==> (command matches KeyCommand::Send(bytes) && bytes@
            == encode_utf8(press.key->Character_0@)),
{
    law_shortcuts_leave_input_alone(press);
    if let LogicalKey::Character(text) = press.key {
        if !press.modifiers.control && !press.modifiers.alt {
            if let KeyCommand::Send(bytes) = command {
                let code = choose|code: KeyCode| #[trigger]
                    means(press.key, code) && bytes@ == key_bytes(
                        KeyInput { code, modifiers: press.modifiers },
                        modes,
                    );
                law_text_is_sent_verbatim(KeyInput { code, modifiers: press.modifiers }, modes);
            }
        }
    }
}

} // verus!
